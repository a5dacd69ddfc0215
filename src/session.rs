use vstd::prelude::*;
use vstd::string::StringExecFns;
use crate::message::{chat_text, joined_text, left_text, Message};
use crate::name::{is_valid_name, trim, trim_of, valid_name};
use crate::registry::{
    has_id, names_of, participants_line, participants_text, removed, PresenceRegistry,
};

verus! {

/// The prompt written to every new connection.
pub open spec fn welcome_text() -> Seq<char> {
    "Welcome to budgetchat! What shall I call you?\n"@
}

/// Where a connection stands in its protocol.
#[derive(PartialEq, Eq, Structural, Clone, Copy, Debug)]
pub enum SessionState {
    /// Waiting for the client to name itself.
    Negotiating,
    /// Named, registered and relaying chat.
    Active,
    /// Finished; nothing more happens.
    Closed,
}

/// What a session sends and publishes once its name is accepted.
pub struct Admission {
    /// The participant list, written to the newcomer's client.
    pub participants: String,
    /// The join announcement, published on the bus.
    pub announcement: Message,
}

/// The per-connection protocol state of one chat client.
pub struct Session {
    pub id: u32,
    pub name: String,
    pub state: SessionState,
}

/// What session `me` writes to its client when event `ev` arrives from the
/// bus: the rendered text, unless the session published `ev` itself.
pub open spec fn delivery(me: u32, ev: Message) -> Option<Seq<char>> {
    if ev.session_id != me {
        Some(ev.msg@)
    } else {
        None
    }
}

/// Everything session `me` writes to its client for the events `evs`,
/// taken in bus order.
pub open spec fn delivered(me: u32, evs: Seq<Message>) -> Seq<Seq<char>> {
    evs.filter_map(|ev: Message| delivery(me, ev))
}

/// The text of each event of another session among `evs` is among what
/// session `me` writes for `evs`.
proof fn lemma_delivered_has(me: u32, evs: Seq<Message>, i: int)
    requires
        0 <= i < evs.len(),
        evs[i].session_id != me,
    ensures
        exists|a: int|
            0 <= a < delivered(me, evs).len() && #[trigger] delivered(me, evs)[a] == evs[i].msg@,
    decreases evs.len(),
{
    let t = evs.drop_last();
    if i == evs.len() - 1 {
        let a = delivered(me, t).len() as int;
        assert(delivered(me, evs)[a] == evs[i].msg@);
    } else {
        assert(t[i] == evs[i]);
        lemma_delivered_has(me, t, i);
        let a = choose|a: int|
            0 <= a < delivered(me, t).len() && #[trigger] delivered(me, t)[a] == evs[i].msg@;
        assert(delivered(me, evs)[a] == evs[i].msg@);
    }
}

/// Order is kept: when events `i` and then `j` from other sessions are on
/// the bus, session `me` writes the text of `i` before that of `j`.
pub proof fn lemma_delivery_order(me: u32, evs: Seq<Message>, i: int, j: int)
    requires
        0 <= i < j < evs.len(),
        evs[i].session_id != me,
        evs[j].session_id != me,
    ensures
        exists|a: int, b: int|
            0 <= a < b < delivered(me, evs).len() && #[trigger] delivered(me, evs)[a]
                == evs[i].msg@ && #[trigger] delivered(me, evs)[b] == evs[j].msg@,
    decreases evs.len(),
{
    let t = evs.drop_last();
    assert(t[i] == evs[i]);
    if j == evs.len() - 1 {
        lemma_delivered_has(me, t, i);
        let a = choose|a: int|
            0 <= a < delivered(me, t).len() && #[trigger] delivered(me, t)[a] == evs[i].msg@;
        let b = delivered(me, t).len() as int;
        assert(delivered(me, evs)[a] == evs[i].msg@);
        assert(delivered(me, evs)[b] == evs[j].msg@);
    } else {
        assert(t[j] == evs[j]);
        lemma_delivery_order(me, t, i, j);
        let (a, b) = choose|a: int, b: int|
            0 <= a < b < delivered(me, t).len() && #[trigger] delivered(me, t)[a] == evs[i].msg@
                && #[trigger] delivered(me, t)[b] == evs[j].msg@;
        assert(delivered(me, evs)[a] == evs[i].msg@);
        assert(delivered(me, evs)[b] == evs[j].msg@);
    }
}

/// No echo: whatever session `me` writes for the events `evs` comes from
/// an event that another session published.
pub proof fn lemma_no_self_echo(me: u32, evs: Seq<Message>, x: Seq<char>)
    requires
        delivered(me, evs).contains(x),
    ensures
        exists|e: Message| #[trigger] evs.contains(e) && e.session_id != me && e.msg@ == x,
{
    evs.lemma_filter_map_contains(|ev: Message| delivery(me, ev), x);
}

/// A session other than the newcomer's writes the newcomer's join
/// announcement exactly once.
pub proof fn lemma_join_seen_once(me: u32, ev: Message, name: Seq<char>)
    requires
        ev.session_id != me,
        ev.msg@ == joined_text(name),
    ensures
        delivered(me, seq![ev]) == seq![joined_text(name)],
{
    assert(seq![ev].drop_last() =~= Seq::<Message>::empty());
    assert(delivered(me, Seq::<Message>::empty()) =~= Seq::<Seq<char>>::empty());
    assert(delivered(me, seq![ev]) =~= seq![joined_text(name)]);
}

/// When session `gone` leaves the registry, any other session `me` writes
/// its departure announcement exactly once, and the registry keeps no
/// entry for it, one entry fewer than before.
pub proof fn lemma_departure(
    before: Seq<(u32, Seq<char>)>,
    after: Seq<(u32, Seq<char>)>,
    gone: u32,
    me: u32,
    ev: Message,
    name: Seq<char>,
)
    requires
        has_id(before, gone),
        removed(before, after, gone),
        crate::registry::ids_unique(before),
        ev.session_id == gone,
        ev.msg@ == left_text(name),
        me != gone,
    ensures
        delivered(me, seq![ev]) == seq![left_text(name)],
        !has_id(after, gone),
        after.len() == before.len() - 1,
{
    assert(seq![ev].drop_last() =~= Seq::<Message>::empty());
    assert(delivered(me, Seq::<Message>::empty()) =~= Seq::<Seq<char>>::empty());
    assert(delivered(me, seq![ev]) =~= seq![left_text(name)]);
    let k = choose|k: int|
        0 <= k < before.len() && before[k].0 == gone && after == before.remove(k);
    before.remove_ensures(k);
    if has_id(after, gone) {
        let i = choose|i: int| 0 <= i < after.len() && #[trigger] after[i].0 == gone;
        if i < k {
            assert(before[i].0 == gone);
        } else {
            assert(before[i + 1].0 == gone);
        }
    }
}

impl Session {
    /// An active session always carries a valid display name.
    pub open spec fn wf(&self) -> bool {
        self.state == SessionState::Active ==> valid_name(self.name@)
    }

    /// A fresh session for a newly accepted connection.
    pub fn new(id: u32) -> (r: Self)
        ensures
            r.id == id,
            r.state == SessionState::Negotiating,
            r.name@ == Seq::<char>::empty(),
            r.wf(),
    {
        Session { id, name: String::new(), state: SessionState::Negotiating }
    }

    /// The prompt written to the client on connection.
    pub fn welcome() -> (r: String)
        ensures
            r@ == welcome_text(),
    {
        String::from_str("Welcome to budgetchat! What shall I call you?\n")
    }

    /// Handles the candidate display name `name` (already trimmed).
    /// A valid name is registered, after the participant list is taken, and
    /// the session becomes active; otherwise the session closes with no
    /// change to the registry.
    pub fn accept_name(&mut self, name: &str, registry: &mut PresenceRegistry) -> (r: Option<Admission>)
        requires
            old(self).state == SessionState::Negotiating,
            old(registry).wf(),
        ensures
            final(registry).wf(),
            final(self).wf(),
            final(self).id == old(self).id,
            r is Some <==> valid_name(name@) && !has_id(old(registry)@, old(self).id),
            r is Some ==> {
                &&& final(self).state == SessionState::Active
                &&& final(self).name@ == name@
                &&& final(registry)@ == old(registry)@.push((old(self).id, name@))
                &&& r->0.participants@ == participants_text(names_of(old(registry)@))
                &&& r->0.announcement.session_id == old(self).id
                &&& r->0.announcement.msg@ == joined_text(name@)
            },
            r is None ==> final(self).state == SessionState::Closed && final(registry)@ == old(
                registry,
            )@,
    {
        if !is_valid_name(name) {
            self.state = SessionState::Closed;
            return None;
        }
        let names = registry.snapshot();
        if !registry.join(self.id, String::from_str(name)) {
            self.state = SessionState::Closed;
            return None;
        }
        let participants = participants_line(&names);
        self.name = String::from_str(name);
        self.state = SessionState::Active;
        let announcement = Message::user_joined(self.id, String::from_str(name));
        Some(Admission { participants, announcement })
    }

    /// Handles the line that the client sent as its name: trims it and
    /// accepts or refuses it as `accept_name` does.
    pub fn negotiate(&mut self, line: &str, registry: &mut PresenceRegistry) -> (r: Option<
        Admission,
    >)
        requires
            old(self).state == SessionState::Negotiating,
            old(registry).wf(),
        ensures
            final(registry).wf(),
            final(self).wf(),
            final(self).id == old(self).id,
            r is Some <==> valid_name(trim_of(line@)) && !has_id(old(registry)@, old(self).id),
            r is Some ==> {
                &&& final(self).state == SessionState::Active
                &&& final(self).name@ == trim_of(line@)
                &&& final(registry)@ == old(registry)@.push((old(self).id, trim_of(line@)))
                &&& r->0.participants@ == participants_text(names_of(old(registry)@))
                &&& r->0.announcement.session_id == old(self).id
                &&& r->0.announcement.msg@ == joined_text(trim_of(line@))
            },
            r is None ==> final(self).state == SessionState::Closed && final(registry)@ == old(
                registry,
            )@,
    {
        let name = trim(line);
        self.accept_name(name, registry)
    }

    /// Handles event `ev` from the bus: the text to write to the client, or
    /// nothing when this session published the event itself.
    pub fn deliver(&self, ev: &Message) -> (r: Option<String>)
        ensures
            r is Some <==> ev.session_id != self.id,
            r is Some ==> delivery(self.id, *ev) == Some(r->0@),
            r is None ==> delivery(self.id, *ev) is None,
    {
        if ev.session_id != self.id {
            Some(ev.msg.clone())
        } else {
            None
        }
    }

    /// Handles a line from the client while active: the chat event to
    /// publish, tagged with this session, carrying the trimmed line.
    pub fn chat(&self, line: &str) -> (r: Message)
        requires
            self.state == SessionState::Active,
        ensures
            r.session_id == self.id,
            r.msg@ == chat_text(self.name@, trim_of(line@)),
    {
        let text = trim(line);
        Message::from_user(self.id, self.name.clone(), String::from_str(text))
    }

    /// Ends the session for whatever reason. An active session leaves the
    /// registry and returns its departure announcement; otherwise nothing
    /// changes but the state. Closing again does nothing.
    pub fn close(&mut self, registry: &mut PresenceRegistry) -> (r: Option<Message>)
        requires
            old(registry).wf(),
        ensures
            final(registry).wf(),
            final(self).state == SessionState::Closed,
            final(self).id == old(self).id,
            final(self).name@ == old(self).name@,
            final(self).wf(),
            r is Some <==> old(self).state == SessionState::Active,
            r is Some ==> {
                &&& r->0.session_id == old(self).id
                &&& r->0.msg@ == left_text(old(self).name@)
                &&& !has_id(final(registry)@, old(self).id)
                &&& removed(old(registry)@, final(registry)@, old(self).id)
            },
            r is None ==> final(registry)@ == old(registry)@,
    {
        if self.state != SessionState::Active {
            self.state = SessionState::Closed;
            return None;
        }
        registry.leave(self.id);
        self.state = SessionState::Closed;
        Some(Message::user_left(self.id, self.name.clone()))
    }
}

} // verus!
