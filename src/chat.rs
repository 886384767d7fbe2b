use vstd::prelude::*;
use vstd::utf8::encode_utf8;
use crate::message::{
    Command, Message, MessageModel, be32, read_be32, frame_of, text_of, text_bytes,
    strip_controls, valid_model,
};

verus! {

/// Who a message goes to. Addresses are IPv4 addresses as 32-bit numbers,
/// first octet most significant.
#[derive(Debug, PartialEq, Eq, Structural, Clone, Copy)]
pub enum Recepients {
    One(u32),
    Peers,
    All,
}

/// What the engine asks its host to do.
#[derive(Debug)]
pub enum Action {
    /// Append a text, under its message id and sender, to the history store.
    Store { sender: u32, id: u32, text: String },
    /// Send one frame to each of the addresses, in order.
    Transmit { frame: Vec<u8>, to: Vec<u32> },
    /// Look the text with this id up in the history store and hand it to
    /// `answer_repeat` for the requester.
    LookUp { id: u32, requester: u32 },
}

/// What an action is, over sequences.
pub ghost enum ActionModel {
    Store { sender: u32, id: u32, text: Seq<char> },
    Transmit { frame: Seq<u8>, to: Seq<u32> },
    LookUp { id: u32, requester: u32 },
}

impl View for Action {
    type V = ActionModel;

    open spec fn view(&self) -> ActionModel {
        match self {
            Action::Store { sender, id, text } => ActionModel::Store {
                sender: *sender,
                id: *id,
                text: text@,
            },
            Action::Transmit { frame, to } => ActionModel::Transmit { frame: frame@, to: to@ },
            Action::LookUp { id, requester } => ActionModel::LookUp {
                id: *id,
                requester: *requester,
            },
        }
    }
}

/// What a list of actions is.
pub open spec fn views(v: Seq<Action>) -> Seq<ActionModel> {
    v.map_values(|a: Action| a@)
}

/// The 255 addresses .0 to .254 of the /24 subnet of `ip`.
pub open spec fn subnet(ip: u32) -> Seq<u32> {
    Seq::new(255, |i: int| (ip as int / 256 * 256 + i) as u32)
}

/// The addresses a send goes to; a send to the peers goes to the whole subnet
/// while at most one peer is known.
pub open spec fn dests_of(ip: u32, peers: Seq<u32>, addrs: Recepients) -> Seq<u32> {
    match addrs {
        Recepients::One(a) => seq![a],
        Recepients::Peers => if peers.len() <= 1 {
            subnet(ip)
        } else {
            peers
        },
        Recepients::All => subnet(ip),
    }
}

/// What sending `m` asks for: nothing for an empty message; else, for a text,
/// storing it under the own address first, then the frame to each destination.
pub open spec fn send_actions(ip: u32, peers: Seq<u32>, m: MessageModel, addrs: Recepients) -> Seq<
    ActionModel,
> {
    if m.command == Command::Empty {
        seq![]
    } else {
        let store = if m.command == Command::Text {
            seq![ActionModel::Store { sender: ip, id: m.id, text: text_of(m.data) }]
        } else {
            seq![]
        };
        store.push(ActionModel::Transmit { frame: frame_of(m), to: dests_of(ip, peers, addrs) })
    }
}

/// Whether a command carries a text that goes into the history.
pub open spec fn is_text(c: Command) -> bool {
    c == Command::Text || c == Command::Repeat
}

/// Whether a command makes its sender known.
pub open spec fn announces(c: Command) -> bool {
    c == Command::Enter || is_text(c)
}

/// Whether a message with command `c` from `from` adds a new peer.
pub open spec fn joins(ip: u32, peers: Seq<u32>, from: u32, c: Command) -> bool {
    announces(c) && from != ip && !peers.contains(from)
}

/// The peers without `a`.
pub open spec fn without_addr(peers: Seq<u32>, a: u32) -> Seq<u32> {
    peers.filter(|x: u32| x != a)
}

/// The peer registry after a message with command `c` from `from`: a new
/// sender other than self is added by `Enter`, `Text` and `Repeat`, and
/// `Exit` removes the sender.
pub open spec fn peers_after(ip: u32, peers: Seq<u32>, from: u32, c: Command) -> Seq<u32> {
    if joins(ip, peers, from, c) {
        peers.push(from)
    } else if c == Command::Exit {
        without_addr(peers, from)
    } else {
        peers
    }
}

/// The byte at `i`, or 0 past the end.
pub open spec fn byte_or_zero(d: Seq<u8>, i: int) -> u8 {
    if i < d.len() {
        d[i]
    } else {
        0
    }
}

/// The id that an `AskToRepeat` payload asks for: its first four bytes, big
/// endian, a missing byte read as 0.
pub open spec fn requested_id_of(d: Seq<u8>) -> u32 {
    read_be32(byte_or_zero(d, 0), byte_or_zero(d, 1), byte_or_zero(d, 2), byte_or_zero(d, 3))
}

/// The greeting that a node named `name` sends.
pub open spec fn is_greeting(name: Seq<char>, m: MessageModel) -> bool {
    m.command == Command::Enter && m.data == text_bytes(name) && valid_model(m)
}

/// Storing a received text, unless it came from self.
pub open spec fn store_of(ip: u32, from: u32, m: MessageModel) -> Seq<ActionModel> {
    if from != ip {
        seq![ActionModel::Store { sender: from, id: m.id, text: text_of(m.data) }]
    } else {
        seq![]
    }
}

/// The text shown for a message id that the history store does not hold.
pub open spec fn missing_text() -> Seq<char> {
    "NO SUCH MESSAGE! = ("@
}

proof fn lemma_filter_sub(s: Seq<u32>, a: u32, y: u32)
    requires
        without_addr(s, a).contains(y),
    ensures
        s.contains(y),
        y != a,
    decreases s.len(),
{
    reveal_with_fuel(Seq::filter, 1);
    if s.len() > 0 {
        let sub = without_addr(s.drop_last(), a);
        if sub.contains(y) {
            lemma_filter_sub(s.drop_last(), a, y);
        } else {
            assert(y == s.last());
        }
    }
}

proof fn lemma_filter_no_dup(s: Seq<u32>, a: u32)
    requires
        s.no_duplicates(),
    ensures
        without_addr(s, a).no_duplicates(),
        !without_addr(s, a).contains(a),
    decreases s.len(),
{
    reveal_with_fuel(Seq::filter, 1);
    if s.len() > 0 {
        let init = s.drop_last();
        assert(init.no_duplicates());
        lemma_filter_no_dup(init, a);
        let sub = without_addr(init, a);
        if s.last() != a {
            if sub.contains(s.last()) {
                lemma_filter_sub(init, a, s.last());
                let j = choose|j: int| 0 <= j < init.len() && init[j] == s.last();
                assert(s[j] == s[s.len() - 1]);
            }
            assert forall|x: u32| sub.push(s.last()).contains(x) implies x != a by {
                if x != s.last() {
                    assert(sub.contains(x));
                }
            }
        }
    }
}

/// Announcing oneself again changes nothing: after any number of `Enter`
/// messages from an address other than self, the registry holds that address
/// exactly once.
pub proof fn lemma_enter_idempotent(ip: u32, peers: Seq<u32>, a: u32)
    requires
        peers.no_duplicates(),
        a != ip,
    ensures
        ({
            let once = peers_after(ip, peers, a, Command::Enter);
            &&& once.contains(a)
            &&& once.no_duplicates()
            &&& peers_after(ip, once, a, Command::Enter) == once
        }),
{
    let once = peers_after(ip, peers, a, Command::Enter);
    if !peers.contains(a) {
        assert(once[once.len() - 1] == a);
    }
}

/// The registry after `k` successive `Enter` messages from `a`.
pub open spec fn after_enters(ip: u32, peers: Seq<u32>, a: u32, k: nat) -> Seq<u32>
    decreases k,
{
    if k == 0 {
        peers
    } else {
        peers_after(ip, after_enters(ip, peers, a, (k - 1) as nat), a, Command::Enter)
    }
}

/// Any number `k >= 1` of `Enter` messages from an address other than self
/// leave the registry as the first one did: holding that address exactly once.
pub proof fn lemma_enters_idempotent(ip: u32, peers: Seq<u32>, a: u32, k: nat)
    requires
        peers.no_duplicates(),
        a != ip,
        k >= 1,
    ensures
        after_enters(ip, peers, a, k) == peers_after(ip, peers, a, Command::Enter),
        after_enters(ip, peers, a, k).contains(a),
        after_enters(ip, peers, a, k).no_duplicates(),
    decreases k,
{
    lemma_enter_idempotent(ip, peers, a);
    let once = peers_after(ip, peers, a, Command::Enter);
    if k == 1 {
        assert(after_enters(ip, peers, a, 0) == peers);
    } else {
        lemma_enters_idempotent(ip, peers, a, (k - 1) as nat);
        assert(after_enters(ip, peers, a, k) == peers_after(ip, once, a, Command::Enter));
    }
}

/// While at most one peer is known, a send to the peers reaches the whole
/// subnet, .0 to .254.
pub proof fn lemma_broadcast_fallback(ip: u32, peers: Seq<u32>)
    requires
        peers.len() <= 1,
    ensures
        dests_of(ip, peers, Recepients::Peers) == subnet(ip),
        subnet(ip).len() == 255,
        forall|i: int| 0 <= i < 255 ==> subnet(ip)[i] as int == ip as int / 256 * 256 + i,
{
}

/// After an `Exit` from an address, that address is no longer a peer, and the
/// other peers stay.
pub proof fn lemma_exit_removes(ip: u32, peers: Seq<u32>, a: u32)
    requires
        peers.no_duplicates(),
    ensures
        !peers_after(ip, peers, a, Command::Exit).contains(a),
        forall|x: u32| x != a && peers.contains(x) ==> peers_after(ip, peers, a, Command::Exit).contains(x),
{
    lemma_filter_no_dup(peers, a);
    assert forall|x: u32| x != a && peers.contains(x) implies peers_after(
        ip,
        peers,
        a,
        Command::Exit,
    ).contains(x) by {
        let k = choose|k: int| 0 <= k < peers.len() && peers[k] == x;
        peers.lemma_filter_contains(|y: u32| y != a, k);
    }
}

/// Whether `v` holds `a`.
pub fn contains_addr(v: &Vec<u32>, a: u32) -> (r: bool)
    ensures
        r == v@.contains(a),
{
    let mut i: usize = 0;
    while i < v.len()
        invariant
            i <= v@.len(),
            forall|j: int| 0 <= j < i ==> v@[j] != a,
        decreases v@.len() - i,
    {
        if v[i] == a {
            return true;
        }
        i = i + 1;
    }
    false
}

/// `v` without `a`, in the same order.
pub fn remove_addr(v: &Vec<u32>, a: u32) -> (r: Vec<u32>)
    ensures
        r@ == without_addr(v@, a),
{
    let mut r: Vec<u32> = Vec::new();
    let mut i: usize = 0;
    while i < v.len()
        invariant
            i <= v@.len(),
            r@ == without_addr(v@.take(i as int), a),
        decreases v@.len() - i,
    {
        proof {
            assert(v@.take(i + 1).drop_last() =~= v@.take(i as int));
            reveal_with_fuel(Seq::filter, 1);
        }
        if v[i] != a {
            r.push(v[i]);
        }
        i = i + 1;
    }
    proof {
        assert(v@.take(i as int) =~= v@);
    }
    r
}

/// The addresses .0 to .254 of the /24 subnet of `ip`.
pub fn subnet_addresses(ip: u32) -> (r: Vec<u32>)
    ensures
        r@ == subnet(ip),
{
    let base: u32 = ip / 256 * 256;
    let mut r: Vec<u32> = Vec::new();
    let mut i: u32 = 0;
    while i < 255
        invariant
            i <= 255,
            base as int == ip as int / 256 * 256,
            r@ == subnet(ip).take(i as int),
        decreases 255 - i,
    {
        r.push(base + i);
        i = i + 1;
        proof {
            assert(r@ =~= subnet(ip).take(i as int));
        }
    }
    proof {
        assert(subnet(ip).take(255) =~= subnet(ip));
    }
    r
}

/// The id that an `AskToRepeat` payload asks for.
pub fn requested_id(data: &Vec<u8>) -> (r: u32)
    ensures
        r == requested_id_of(data@),
{
    let b0: u8 = if data.len() > 0 {
        data[0]
    } else {
        0
    };
    let b1: u8 = if data.len() > 1 {
        data[1]
    } else {
        0
    };
    let b2: u8 = if data.len() > 2 {
        data[2]
    } else {
        0
    };
    let b3: u8 = if data.len() > 3 {
        data[3]
    } else {
        0
    };
    ((b0 as u32) << 24u32) | ((b1 as u32) << 16u32) | ((b2 as u32) << 8u32) | (b3 as u32)
}

/// The chat engine: own address, name and port, the outbound message, the
/// history of received texts, the peer registry and the history store's status.
pub struct UdpChat {
    pub ip: u32,
    pub port: usize,
    pub name: String,
    pub message: Message,
    pub history: Vec<(u32, String)>,
    pub peers: Vec<u32>,
    pub db_status: String,
}

impl UdpChat {
    /// The peer registry holds each address at most once.
    pub open spec fn wf(&self) -> bool {
        self.peers@.no_duplicates()
    }

    /// A fresh engine, not yet on the network.
    pub fn new(name: String, port: usize, store_online: bool) -> (r: Self)
        ensures
            r.wf(),
            r.ip == 0,
            r.port == port,
            r.name == name,
            r.message@ == crate::message::empty_model(),
            r.history@.len() == 0,
            r.peers@.len() == 0,
            r.db_status@ == (if store_online {
                "DB: ready."@
            } else {
                "DB! offline"@
            }),
    {
        let db_status = if store_online {
            "DB: ready.".to_owned()
        } else {
            "DB! offline".to_owned()
        };
        UdpChat {
            ip: 0,
            port,
            name,
            message: Message::empty(),
            history: Vec::new(),
            peers: Vec::new(),
            db_status,
        }
    }

    /// Whether the peer registry holds each address at most once.
    pub fn is_wf(&self) -> (r: bool)
        ensures
            r == self.wf(),
    {
        let n = self.peers.len();
        let mut i: usize = 0;
        while i < n
            invariant
                n == self.peers@.len(),
                i <= n,
                forall|j: int, k: int|
                    0 <= j < i && 0 <= k < n && j != k ==> self.peers@[j] != self.peers@[k],
            decreases n - i,
        {
            let mut k: usize = 0;
            while k < n
                invariant
                    n == self.peers@.len(),
                    i < n,
                    k <= n,
                    forall|j: int, l: int|
                        0 <= j < i && 0 <= l < n && j != l ==> self.peers@[j] != self.peers@[l],
                    forall|l: int| 0 <= l < k && l != i ==> self.peers@[i as int] != self.peers@[l],
                decreases n - k,
            {
                if k != i && self.peers[i] == self.peers[k] {
                    return false;
                }
                k = k + 1;
            }
            i = i + 1;
        }
        true
    }

    /// How many peers are known.
    pub fn peer_count(&self) -> (r: usize)
        ensures
            r == self.peers@.len(),
    {
        self.peers.len()
    }

    /// The addresses that a send to `addrs` goes to.
    pub fn destinations(&self, addrs: Recepients) -> (r: Vec<u32>)
        ensures
            r@ == dests_of(self.ip, self.peers@, addrs),
    {
        match addrs {
            Recepients::One(a) => vec![a],
            Recepients::Peers => {
                if self.peers.len() <= 1 {
                    subnet_addresses(self.ip)
                } else {
                    let r = self.peers.clone();
                    proof {
                        assert(r@ =~= self.peers@);
                    }
                    r
                }
            },
            Recepients::All => subnet_addresses(self.ip),
        }
    }

    /// Sends the outbound message: what the host is to store and transmit.
    pub fn send(&self, addrs: Recepients) -> (r: Vec<Action>)
        ensures
            views(r@) == send_actions(self.ip, self.peers@, self.message@, addrs),
    {
        let mut actions: Vec<Action> = Vec::new();
        if self.message.command == Command::Empty {
            proof {
                assert(views(actions@) =~= seq![]);
            }
            return actions;
        }
        if self.message.command == Command::Text {
            actions.push(
                Action::Store { sender: self.ip, id: self.message.id, text: self.message.read_text() },
            );
        }
        let ghost store = views(actions@);
        actions.push(
            Action::Transmit { frame: self.message.to_be_bytes(), to: self.destinations(addrs) },
        );
        proof {
            assert(views(actions@) =~= store.push(views(actions@).last()));
            let m = self.message@;
            let st = if m.command == Command::Text {
                seq![ActionModel::Store { sender: self.ip, id: m.id, text: text_of(m.data) }]
            } else {
                seq![]
            };
            assert(store =~= st);
        }
        actions
    }

    /// Sends a line typed by the user to the peers.
    pub fn submit_text(&mut self, text: &str) -> (r: Vec<Action>)
        ensures
            final(self).ip == old(self).ip,
            final(self).port == old(self).port,
            final(self).name == old(self).name,
            final(self).history == old(self).history,
            final(self).peers == old(self).peers,
            final(self).db_status == old(self).db_status,
            final(self).message.command == Command::Text,
            final(self).message.data@ == text_bytes(strip_controls(text@)),
            valid_model(final(self).message@),
            views(r@) == send_actions(
                old(self).ip,
                old(self).peers@,
                final(self).message@,
                Recepients::Peers,
            ),
    {
        self.message = Message::text(text);
        self.send(Recepients::Peers)
    }

    /// Joins the chat at address `ip`: takes over the stored history when
    /// there is one, and greets the whole subnet.
    pub fn prelude(&mut self, ip: u32, stored: Option<Vec<(u32, String)>>) -> (r: Vec<Action>)
        ensures
            final(self).ip == ip,
            final(self).port == old(self).port,
            final(self).name == old(self).name,
            final(self).peers == old(self).peers,
            final(self).db_status == old(self).db_status,
            match stored {
                Some(h) => final(self).history == h,
                None => final(self).history == old(self).history,
            },
            is_greeting(old(self).name@, final(self).message@),
            views(r@) == send_actions(ip, old(self).peers@, final(self).message@, Recepients::All),
    {
        self.ip = ip;
        if let Some(h) = stored {
            self.history = h;
        }
        self.message = Message::enter(self.name.as_str());
        self.send(Recepients::All)
    }

    /// Leaves the chat: says so to the whole subnet.
    pub fn shutdown(&mut self) -> (r: Vec<Action>)
        ensures
            final(self).ip == old(self).ip,
            final(self).port == old(self).port,
            final(self).name == old(self).name,
            final(self).history == old(self).history,
            final(self).peers == old(self).peers,
            final(self).db_status == old(self).db_status,
            final(self).message.command == Command::Exit,
            final(self).message.data@.len() == 0,
            valid_model(final(self).message@),
            views(r@) == send_actions(
                old(self).ip,
                old(self).peers@,
                final(self).message@,
                Recepients::All,
            ),
    {
        self.message = Message::exit();
        self.send(Recepients::All)
    }

    /// Forgets the history.
    pub fn clear_history(&mut self)
        ensures
            final(self).ip == old(self).ip,
            final(self).port == old(self).port,
            final(self).name == old(self).name,
            final(self).message == old(self).message,
            final(self).peers == old(self).peers,
            final(self).db_status == old(self).db_status,
            final(self).history@.len() == 0,
    {
        self.history = Vec::new();
    }

    /// Reacts to a message from `from`: registers and greets a new peer on
    /// `Enter`; records (and, from others, stores) the text of `Text` and
    /// `Repeat`, greeting a new sender; asks back for the id of a `Damaged`
    /// message; hands an `AskToRepeat` to the history store; forgets the peer
    /// on `Exit`; ignores `Empty` and `Error`. Self never enters the registry.
    pub fn receive(&mut self, from: u32, message: Message) -> (r: Vec<Action>)
        requires
            old(self).wf(),
        ensures
            final(self).wf(),
            final(self).ip == old(self).ip,
            final(self).port == old(self).port,
            final(self).name == old(self).name,
            final(self).db_status == old(self).db_status,
            final(self).peers@ == peers_after(
                old(self).ip,
                old(self).peers@,
                from,
                message.command,
            ),
            is_text(message.command) ==> {
                &&& final(self).history@.len() == old(self).history@.len() + 1
                &&& final(self).history@.take(old(self).history@.len() as int)
                    == old(self).history@
                &&& final(self).history@.last().0 == from
                &&& final(self).history@.last().1@ == text_of(message.data@)
            },
            !is_text(message.command) ==> final(self).history == old(self).history,
            joins(old(self).ip, old(self).peers@, from, message.command) ==> is_greeting(
                old(self).name@,
                final(self).message@,
            ),
            joins(old(self).ip, old(self).peers@, from, message.command) && message.command
                == Command::Enter ==> views(r@) == send_actions(
                old(self).ip,
                final(self).peers@,
                final(self).message@,
                Recepients::One(from),
            ),
            joins(old(self).ip, old(self).peers@, from, message.command) && is_text(
                message.command,
            ) ==> views(r@) == store_of(old(self).ip, from, message@) + send_actions(
                old(self).ip,
                final(self).peers@,
                final(self).message@,
                Recepients::One(from),
            ),
            announces(message.command) && !joins(
                old(self).ip,
                old(self).peers@,
                from,
                message.command,
            ) ==> final(self).message == old(self).message,
            is_text(message.command) && !joins(
                old(self).ip,
                old(self).peers@,
                from,
                message.command,
            ) ==> views(r@) == store_of(old(self).ip, from, message@),
            message.command == Command::Enter && !joins(
                old(self).ip,
                old(self).peers@,
                from,
                message.command,
            ) ==> r@.len() == 0,
            message.command == Command::Damaged ==> {
                &&& final(self).message.command == Command::AskToRepeat
                &&& final(self).message.data@ == be32(message.id)
                &&& valid_model(final(self).message@)
                &&& views(r@) == send_actions(
                    old(self).ip,
                    old(self).peers@,
                    final(self).message@,
                    Recepients::One(from),
                )
            },
            message.command == Command::AskToRepeat ==> {
                &&& final(self).message == old(self).message
                &&& views(r@) == seq![
                    ActionModel::LookUp { id: requested_id_of(message.data@), requester: from },
                ]
            },
            (message.command == Command::Exit || message.command == Command::Empty
                || message.command == Command::Error) ==> {
                &&& final(self).message == old(self).message
                &&& r@.len() == 0
            },
    {
        let joining = from != self.ip && !contains_addr(&self.peers, from);
        match message.command {
            Command::Enter => {
                if joining {
                    self.peers.push(from);
                    self.message = Message::enter(self.name.as_str());
                    proof {
                        assert(final(self).wf()) by {
                            assert(self.peers@.last() == from);
                        }
                    }
                    self.send(Recepients::One(from))
                } else {
                    Vec::new()
                }
            },
            Command::Text | Command::Repeat => {
                let mut actions: Vec<Action> = Vec::new();
                if from != self.ip {
                    actions.push(
                        Action::Store { sender: from, id: message.id, text: message.read_text() },
                    );
                }
                proof {
                    assert(views(actions@) =~= store_of(self.ip, from, message@));
                }
                let text = message.read_text();
                self.history.push((from, text));
                proof {
                    assert(self.history@.take(self.history@.len() - 1) =~= old(self).history@);
                }
                if joining {
                    self.peers.push(from);
                    self.message = Message::enter(self.name.as_str());
                    let ghost stored = views(actions@);
                    let mut greeting = self.send(Recepients::One(from));
                    let ghost sent = views(greeting@);
                    actions.append(&mut greeting);
                    proof {
                        assert(views(actions@) =~= stored + sent);
                    }
                }
                actions
            },
            Command::Damaged => {
                let mut payload: Vec<u8> = Vec::new();
                payload.push((message.id >> 24u32) as u8);
                payload.push((message.id >> 16u32) as u8);
                payload.push((message.id >> 8u32) as u8);
                payload.push(message.id as u8);
                proof {
                    assert(payload@ =~= be32(message.id));
                }
                self.message = Message::new(Command::AskToRepeat, payload);
                self.send(Recepients::One(from))
            },
            Command::AskToRepeat => {
                let id = requested_id(&message.data);
                let mut actions: Vec<Action> = Vec::new();
                actions.push(Action::LookUp { id, requester: from });
                proof {
                    assert(views(actions@) =~= seq![
                        ActionModel::LookUp { id: requested_id_of(message.data@), requester: from },
                    ]);
                }
                actions
            },
            Command::Exit => {
                proof {
                    lemma_filter_no_dup(self.peers@, from);
                }
                self.peers = remove_addr(&self.peers, from);
                Vec::new()
            },
            _ => Vec::new(),
        }
    }

    /// Answers a request to repeat message `id` with the text the history
    /// store found under it, or a fixed notice when it found none.
    pub fn answer_repeat(&mut self, id: u32, found: Option<String>, requester: u32) -> (r: Vec<
        Action,
    >)
        ensures
            final(self).ip == old(self).ip,
            final(self).port == old(self).port,
            final(self).name == old(self).name,
            final(self).history == old(self).history,
            final(self).peers == old(self).peers,
            final(self).db_status == old(self).db_status,
            ({
                let t = match found {
                    Some(s) => s@,
                    None => missing_text(),
                };
                final(self).message@ == (MessageModel {
                    id,
                    checksum: crate::message::crc16_of(encode_utf8(t)),
                    command: Command::Repeat,
                    data: encode_utf8(t),
                })
            }),
            views(r@) == send_actions(
                old(self).ip,
                old(self).peers@,
                final(self).message@,
                Recepients::One(requester),
            ),
    {
        let text = match found {
            Some(s) => s,
            None => "NO SUCH MESSAGE! = (".to_owned(),
        };
        self.message = Message::retry_text(id, text.as_str());
        self.send(Recepients::One(requester))
    }
}

} // verus!
