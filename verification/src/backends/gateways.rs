//! The listeners of gateways, which must be distinct.
use vstd::prelude::*;
use crate::common::listener::{
    Listener,
    ListenerError,
    ListenerErrorView,
    ListenerView,
    ProtocolType,
};
use crate::common::route::{Route, RouteStatus};
use crate::lists::{choose_list, chosen, chosen_contains, map_list};
use crate::model::Model;
use crate::ordered::{
    OrderedMap,
    OrderedSet,
    drop_key,
    hits,
    increasing,
    keys,
    law_drop_key,
    law_put,
    put,
    slot,
    slot_bounds,
    table,
};
use crate::text::{cat, cat3};

verus! {

/// Why a route cannot be used.
#[derive(Debug, PartialEq, Eq)]
pub enum RouteError {
    UnknownProtocol(String),
    NotDistinct(String, i32, ProtocolType, Option<String>),
}

/// What a [`RouteError`] holds.
#[verifier::ext_equal]
pub enum RouteErrorView {
    UnknownProtocol(Seq<char>),
    NotDistinct(Seq<char>, i32, ProtocolType, Option<Seq<char>>),
}

impl DeepView for RouteError {
    type V = RouteErrorView;

    open spec fn deep_view(&self) -> RouteErrorView {
        match self {
            RouteError::UnknownProtocol(x0) => RouteErrorView::UnknownProtocol(x0.deep_view()),
            RouteError::NotDistinct(x0, x1, x2, x3) => RouteErrorView::NotDistinct(x0.deep_view(), x1.deep_view(), x2.deep_view(), x3.deep_view()),
        }
    }
}

impl Model for RouteError {
    fn dup(&self) -> (r: Self) {
        match self {
            RouteError::UnknownProtocol(x0) => RouteError::UnknownProtocol(x0.dup()),
            RouteError::NotDistinct(x0, x1, x2, x3) => RouteError::NotDistinct(x0.dup(), x1.dup(), x2.dup(), x3.dup()),
        }
    }

    fn same(&self, other: &Self) -> (r: bool) {
        match (self, other) {
            (RouteError::UnknownProtocol(x0), RouteError::UnknownProtocol(x0_)) => x0.same(x0_),
            (RouteError::NotDistinct(x0, x1, x2, x3), RouteError::NotDistinct(x0_, x1_, x2_, x3_)) => x0.same(x0_) && x1.same(x1_) && x2.same(x2_) && x3.same(x3_),
            _ => false,
        }
    }
}

/// What became of a listener.
#[derive(Clone, Copy, Debug, PartialEq, Eq, Structural)]
pub enum ListenerStatus {
    Added,
    Updated,
    AlreadyConfigured,
}

impl DeepView for ListenerStatus {
    type V = ListenerStatus;

    open spec fn deep_view(&self) -> ListenerStatus {
        *self
    }
}

impl Model for ListenerStatus {
    fn dup(&self) -> (r: Self) {
        *self
    }

    fn same(&self, other: &Self) -> (r: bool) {
        *self == *other
    }
}

impl ListenerStatus {
    /// The name of the status.
    pub open spec fn shown(self) -> Seq<char> {
        match self {
            ListenerStatus::Added => "Added"@,
            ListenerStatus::Updated => "Updated"@,
            ListenerStatus::AlreadyConfigured => "AlreadyConfigured"@,
        }
    }

    /// The name of the status.
    pub fn to_text(&self) -> (r: &'static str)
        ensures
            r@ == self.shown(),
    {
        match self {
            ListenerStatus::Added => "Added",
            ListenerStatus::Updated => "Updated",
            ListenerStatus::AlreadyConfigured => "AlreadyConfigured",
        }
    }
}

/// The place of a protocol among the protocols.
pub open spec fn protocol_place(protocol: ProtocolType) -> u8 {
    match protocol {
        ProtocolType::Unknown => 0,
        ProtocolType::Http => 1,
        ProtocolType::Https => 2,
        ProtocolType::Tcp => 3,
        ProtocolType::Tls => 4,
        ProtocolType::Udp => 5,
    }
}

fn place_of(protocol: ProtocolType) -> (r: u8)
    ensures
        r == protocol_place(protocol),
{
    match protocol {
        ProtocolType::Unknown => 0,
        ProtocolType::Http => 1,
        ProtocolType::Https => 2,
        ProtocolType::Tcp => 3,
        ProtocolType::Tls => 4,
        ProtocolType::Udp => 5,
    }
}

/// The port, the protocol and the hostname of a listener.
pub type PortProtocolHostname = (i32, (u8, Option<String>));

/// The port, the protocol and the hostname of a listener.
pub open spec fn spot(listener: ListenerView) -> (i32, (u8, Option<Seq<char>>)) {
    let config = listener.made_of().config;
    (config.port, (protocol_place(listener.speaks()), config.hostname))
}

fn spot_of(listener: &Listener) -> (r: (i32, (u8, Option<String>)))
    ensures
        r.deep_view() == spot(listener.deep_view()),
{
    let hostname = match listener.hostname() {
        Some(hostname) => Some(hostname.dup()),
        None => None,
    };
    (listener.port(), (place_of(listener.protocol()), hostname))
}

/// The listeners by their names, and the names of listeners by their ports, protocols and hostnames.
#[verifier::ext_equal]
pub struct ListenersState {
    pub by_name: Seq<(Seq<char>, ListenerView)>,
    pub by_spot: Seq<((i32, (u8, Option<Seq<char>>)), Seq<char>)>,
}

/// Whether the outcome of an update is the one that is expected.
pub open spec fn outcome_is(
    outcome: Result<ListenerStatus, ListenerError>,
    expected: Result<ListenerStatus, ListenerErrorView>,
) -> bool {
    match expected {
        Ok(status) => outcome == Ok::<ListenerStatus, ListenerError>(status),
        Err(error) => outcome is Err && outcome->Err_0.deep_view() == error,
    }
}

impl ListenersState {
    /// No listeners.
    pub open spec fn nothing() -> ListenersState {
        ListenersState { by_name: Seq::empty(), by_spot: Seq::empty() }
    }

    /// Whether the listeners are in the order of their names, and the names in that of their ports,
    /// protocols and hostnames.
    pub open spec fn in_order(self) -> bool {
        &&& increasing::<String>(keys(self.by_name))
        &&& increasing::<(i32, (u8, Option<String>))>(keys(self.by_spot))
    }

    /// What becomes of a listener: a new one is added where no other is at its port with its protocol
    /// and hostname; one that is known is updated where no listener is there.
    pub open spec fn outcome(self, listener: ListenerView) -> Result<
        ListenerStatus,
        ListenerErrorView,
    > {
        let config = listener.made_of().config;
        let exists = table(self.by_name).contains_key(config.name);
        let duplicate = table(self.by_spot).contains_key(spot(listener));
        if !exists && !duplicate {
            Ok(ListenerStatus::Added)
        } else if !exists {
            Err(
                ListenerErrorView::NotDistinct(
                    config.name,
                    config.port,
                    listener.speaks(),
                    config.hostname,
                ),
            )
        } else if !duplicate {
            Ok(ListenerStatus::Updated)
        } else {
            Ok(ListenerStatus::AlreadyConfigured)
        }
    }

    /// The listeners after an update.
    pub open spec fn updated(self, listener: ListenerView) -> ListenersState {
        let name = listener.made_of().config.name;
        match self.outcome(listener) {
            Ok(ListenerStatus::Added) => ListenersState {
                by_name: put::<String, ListenerView>(self.by_name, name, listener),
                by_spot: put::<(i32, (u8, Option<String>)), Seq<char>>(
                    self.by_spot,
                    spot(listener),
                    name,
                ),
            },
            Ok(ListenerStatus::Updated) => ListenersState {
                by_name: put::<String, ListenerView>(self.by_name, name, listener),
                by_spot: self.by_spot,
            },
            _ => self,
        }
    }

    /// The listeners without the one of a name.
    pub open spec fn removed(self, name: Seq<char>) -> ListenersState {
        if table(self.by_name).contains_key(name) {
            ListenersState {
                by_name: drop_key::<String, ListenerView>(self.by_name, name),
                by_spot: drop_key::<(i32, (u8, Option<String>)), Seq<char>>(
                    self.by_spot,
                    spot(table(self.by_name)[name]),
                ),
            }
        } else {
            self
        }
    }

    /// The listeners after updates, one after the other.
    pub open spec fn updated_by(self, listeners: Seq<ListenerView>) -> ListenersState
        decreases listeners.len(),
    {
        if listeners.len() == 0 {
            self
        } else {
            self.updated_by(listeners.drop_last()).updated(listeners.last())
        }
    }

    /// The listeners without those of some names.
    pub open spec fn without(self, names: Seq<Seq<char>>) -> ListenersState
        decreases names.len(),
    {
        if names.len() == 0 {
            self
        } else {
            self.without(names.drop_last()).removed(names.last())
        }
    }

    /// The names of the listeners that are not among some listeners.
    pub open spec fn missing(self, listeners: Seq<ListenerView>) -> Seq<Seq<char>> {
        chosen(keys(self.by_name), not_among(listeners.map_values(listener_name())))
    }

    /// The listeners after all listeners of a gateway are given: those that are not given any more are
    /// removed, then the given ones are updated.
    pub open spec fn given(self, listeners: Seq<ListenerView>) -> ListenersState {
        self.without(self.missing(listeners)).updated_by(listeners)
    }

    /// What becomes of the listener at a place among all listeners of a gateway that are given.
    pub open spec fn given_outcome(self, listeners: Seq<ListenerView>, i: int) -> Result<
        ListenerStatus,
        ListenerErrorView,
    > {
        self.without(self.missing(listeners)).updated_by(listeners.take(i)).outcome(listeners[i])
    }
}

/// The name of a listener.
pub open spec fn listener_name() -> spec_fn(ListenerView) -> Seq<char> {
    |listener: ListenerView| listener.made_of().config.name
}

/// A name that is not among some names.
pub open spec fn not_among(names: Seq<Seq<char>>) -> spec_fn(Seq<char>) -> Option<Seq<char>> {
    |name: Seq<char>|
        if names.contains(name) {
            None
        } else {
            Some(name)
        }
}

/// The listeners of a gateway.
#[derive(Debug)]
pub struct Listeners {
    listeners_by_port_protocol_hostname: OrderedMap<(i32, (u8, Option<String>)), String>,
    listeners_by_name: OrderedMap<String, Listener>,
}

impl DeepView for Listeners {
    type V = ListenersState;

    closed spec fn deep_view(&self) -> ListenersState {
        ListenersState {
            by_name: self.listeners_by_name.deep_view(),
            by_spot: self.listeners_by_port_protocol_hostname.deep_view(),
        }
    }
}

impl Model for Listeners {
    fn dup(&self) -> (r: Self) {
        Listeners {
            listeners_by_port_protocol_hostname: self.listeners_by_port_protocol_hostname.dup(),
            listeners_by_name: self.listeners_by_name.dup(),
        }
    }

    fn same(&self, other: &Self) -> (r: bool) {
        self.listeners_by_name.same(&other.listeners_by_name)
            && self.listeners_by_port_protocol_hostname.same(
            &other.listeners_by_port_protocol_hostname,
        )
    }
}

impl Default for Listeners {
    fn default() -> (r: Self)
        ensures
            r.deep_view() == ListenersState::nothing(),
            r.deep_view().in_order(),
    {
        Listeners::new()
    }
}

impl Listeners {
    /// No listeners.
    pub fn new() -> (r: Self)
        ensures
            r.deep_view() == ListenersState::nothing(),
            r.deep_view().in_order(),
    {
        Listeners {
            listeners_by_port_protocol_hostname: OrderedMap::new(),
            listeners_by_name: OrderedMap::new(),
        }
    }

    /// Takes all listeners of the gateway: those that are not among them are removed, and each of them
    /// is updated. What became of each is given back under its name.
    pub fn update_listeners(&mut self, listeners: &Vec<Listener>) -> (r: Vec<
        (String, Result<ListenerStatus, ListenerError>),
    >)
        ensures
            final(self).deep_view() == old(self).deep_view().given(listeners.deep_view()),
            r@.len() == listeners.deep_view().len(),
            forall|i: int|
                0 <= i < r@.len() ==> {
                    &&& (#[trigger] r@[i]).0@ == listener_name()(listeners.deep_view()[i])
                    &&& outcome_is(
                        r@[i].1,
                        old(self).deep_view().given_outcome(listeners.deep_view(), i),
                    )
                },
            final(self).deep_view().in_order(),
    {
        let ghost all = listeners.deep_view();
        let ghost before = self.deep_view();
        let names = map_list(
            listeners,
            |listener: &Listener| -> (y: String)
                ensures y.deep_view() == listener_name()(listener.deep_view())
            { listener.name().to_owned() },
            Ghost(listener_name()),
        );
        let new_keys = OrderedSet::gather(&names);
        let existing = list_names(&self.listeners_by_name);
        let gone = choose_list(
            &existing,
            |name: &String| -> (y: Option<String>)
                ensures y.deep_view() == not_among(names.deep_view())(name.deep_view())
            {
                if new_keys.contains(name) {
                    None
                } else {
                    Some(name.dup())
                }
            },
            Ghost(not_among(names.deep_view())),
        );
        let ghost missing = gone.deep_view();
        let mut i: usize = 0;
        assert(missing.take(0) =~= Seq::<Seq<char>>::empty());
        while i < gone.len()
            invariant
                i <= gone.len(),
                gone.deep_view() == missing,
                self.deep_view() == before.without(missing.take(i as int)),
            decreases gone.len() - i,
        {
            let _ = self.remove(&gone[i]);
            assert(missing[i as int] == gone[i as int].deep_view());
            assert(missing.take(i + 1).drop_last() =~= missing.take(i as int));
            i = i + 1;
        }
        assert(missing.take(i as int) =~= missing);
        proof {
            use_type_invariant(&self.listeners_by_name);
            use_type_invariant(&self.listeners_by_port_protocol_hostname);
        }
        let ghost start = self.deep_view();
        let mut out: Vec<(String, Result<ListenerStatus, ListenerError>)> = Vec::new();
        let mut k: usize = 0;
        assert(all.take(0) =~= Seq::<ListenerView>::empty());
        while k < listeners.len()
            invariant
                k <= listeners.len(),
                listeners.deep_view() == all,
                self.deep_view() == start.updated_by(all.take(k as int)),
                self.deep_view().in_order(),
                out@.len() == k,
                forall|i: int|
                    0 <= i < out@.len() ==> {
                        &&& (#[trigger] out@[i]).0@ == listener_name()(all[i])
                        &&& outcome_is(out@[i].1, start.updated_by(all.take(i)).outcome(all[i]))
                    },
            decreases listeners.len() - k,
        {
            assert(all[k as int] == listeners[k as int].deep_view());
            assert(all.take(k + 1).drop_last() =~= all.take(k as int));
            let name = listeners[k].name().to_owned();
            let outcome = self.update(listeners[k].dup());
            out.push((name, outcome));
            k = k + 1;
        }
        assert(all.take(k as int) =~= all);
        out
    }

    /// Forgets all listeners.
    pub fn delete_listeners(&mut self)
        ensures
            final(self).deep_view() == ListenersState::nothing(),
            final(self).deep_view().in_order(),
    {
        self.listeners_by_name = OrderedMap::new();
        self.listeners_by_port_protocol_hostname = OrderedMap::new();
    }

    /// Updates a listener.
    pub fn update(&mut self, listener: Listener) -> (r: Result<ListenerStatus, ListenerError>)
        ensures
            final(self).deep_view() == old(self).deep_view().updated(listener.deep_view()),
            outcome_is(r, old(self).deep_view().outcome(listener.deep_view())),
            final(self).deep_view().in_order(),
    {
        proof {
            use_type_invariant(&self.listeners_by_name);
            use_type_invariant(&self.listeners_by_port_protocol_hostname);
        }
        let ghost before = self.deep_view();
        let name = listener.name().to_owned();
        let key = spot_of(&listener);
        proof {
            update_grows(before, listener.deep_view());
        }
        let exists = self.listeners_by_name.contains_key(&name);
        let duplicate = self.listeners_by_port_protocol_hostname.contains_key(&key);
        if !exists && !duplicate {
            self.listeners_by_port_protocol_hostname.insert(key, name.dup());
            self.listeners_by_name.insert(name, listener);
            Ok(ListenerStatus::Added)
        } else if !exists {
            Err(
                ListenerError::NotDistinct(
                    name,
                    listener.port(),
                    listener.protocol(),
                    match listener.hostname() {
                        Some(hostname) => Some(hostname.dup()),
                        None => None,
                    },
                ),
            )
        } else if !duplicate {
            self.listeners_by_name.insert(name, listener);
            Ok(ListenerStatus::Updated)
        } else {
            Ok(ListenerStatus::AlreadyConfigured)
        }
    }

    /// Removes the listener of a name, where there is one.
    pub fn remove(&mut self, name: &String) -> (r: Result<Option<Listener>, ListenerError>)
        ensures
            final(self).deep_view() == old(self).deep_view().removed(name@),
            r is Ok,
            r->Ok_0 is Some <==> table(old(self).deep_view().by_name).contains_key(name@),
            r->Ok_0 is Some ==> r->Ok_0->0.deep_view() == table(old(self).deep_view().by_name)[name@],
            final(self).deep_view().in_order(),
    {
        proof {
            use_type_invariant(&self.listeners_by_name);
            use_type_invariant(&self.listeners_by_port_protocol_hostname);
        }
        proof {
            removal_drops(self.deep_view(), name@);
        }
        if !self.listeners_by_name.contains_key(name) {
            return Ok(None);
        }
        match self.listeners_by_name.remove(name) {
            Some(listener) => {
                let key = spot_of(&listener);
                let _ = self.listeners_by_port_protocol_hostname.remove(&key);
                Ok(Some(listener))
            },
            None => Ok(None),
        }
    }
}

fn list_names(listeners: &OrderedMap<String, Listener>) -> (r: Vec<String>)
    ensures
        r.deep_view() == keys(listeners.deep_view()),
{
    let entries = listeners.entries();
    let give = map_list(
        entries,
        |entry: &(String, Listener)| -> (y: String)
            ensures y.deep_view() == (|e: (Seq<char>, ListenerView)| e.0)(entry.deep_view())
        { entry.0.dup() },
        Ghost(|e: (Seq<char>, ListenerView)| e.0),
    );
    assert(give.deep_view() =~= keys(listeners.deep_view()));
    give
}

proof fn update_grows(state: ListenersState, listener: ListenerView)
    requires
        state.in_order(),
    ensures
        ({
            let next = state.updated(listener);
            let name = listener_name()(listener);
            &&& next.in_order()
            &&& forall|n: Seq<char>|
                #[trigger] table(next.by_name).contains_key(n) ==> table(state.by_name).contains_key(n)
                    || n == name
            &&& forall|n: Seq<char>| #[trigger]
                table(state.by_name).contains_key(n) ==> table(next.by_name).contains_key(n)
            &&& forall|s: (i32, (u8, Option<Seq<char>>))| #[trigger]
                table(state.by_spot).contains_key(s) ==> table(next.by_spot).contains_key(s)
            &&& table(next.by_name).contains_key(name) || table(next.by_spot).contains_key(
                spot(listener),
            )
        }),
{
    let name = listener_name()(listener);
    law_put::<String, ListenerView>(state.by_name, name, listener);
    law_put::<(i32, (u8, Option<String>)), Seq<char>>(state.by_spot, spot(listener), name);
}

proof fn updates_grow(state: ListenersState, listeners: Seq<ListenerView>)
    requires
        state.in_order(),
    ensures
        ({
            let next = state.updated_by(listeners);
            &&& next.in_order()
            &&& forall|n: Seq<char>|
                #[trigger] table(next.by_name).contains_key(n) ==> table(state.by_name).contains_key(n)
                    || listeners.map_values(listener_name()).contains(n)
            &&& forall|n: Seq<char>| #[trigger]
                table(state.by_name).contains_key(n) ==> table(next.by_name).contains_key(n)
            &&& forall|s: (i32, (u8, Option<Seq<char>>))| #[trigger]
                table(state.by_spot).contains_key(s) ==> table(next.by_spot).contains_key(s)
        }),
    decreases listeners.len(),
{
    if listeners.len() > 0 {
        let shorter = listeners.drop_last();
        let between = state.updated_by(shorter);
        let names = listeners.map_values(listener_name());
        updates_grow(state, shorter);
        update_grows(between, listeners.last());
        assert(names =~= shorter.map_values(listener_name()).push(
            listener_name()(listeners.last()),
        ));
        assert forall|n: Seq<char>| #[trigger]
            table(state.updated_by(listeners).by_name).contains_key(n) implies table(
            state.by_name,
        ).contains_key(n) || names.contains(n) by {
            if n == listener_name()(listeners.last()) {
                assert(names[names.len() - 1] == n);
            } else if shorter.map_values(listener_name()).contains(n) {
                let i = choose|i: int|
                    0 <= i < shorter.len() && shorter.map_values(listener_name())[i] == n;
                assert(names[i] == n);
            }
        }
        assert forall|n: Seq<char>| #[trigger] table(state.by_name).contains_key(n) implies table(
            state.updated_by(listeners).by_name,
        ).contains_key(n) by {
            assert(table(between.by_name).contains_key(n));
        }
        assert forall|s: (i32, (u8, Option<Seq<char>>))| #[trigger]
            table(state.by_spot).contains_key(s) implies table(
            state.updated_by(listeners).by_spot,
        ).contains_key(s) by {
            assert(table(between.by_spot).contains_key(s));
        }
    }
}

proof fn updates_hold(state: ListenersState, listeners: Seq<ListenerView>, i: int)
    requires
        state.in_order(),
        0 <= i < listeners.len(),
    ensures
        ({
            let next = state.updated_by(listeners);
            table(next.by_name).contains_key(listener_name()(listeners[i])) || table(
                next.by_spot,
            ).contains_key(spot(listeners[i]))
        }),
    decreases listeners.len(),
{
    let shorter = listeners.drop_last();
    updates_grow(state, shorter);
    update_grows(state.updated_by(shorter), listeners.last());
    if i < shorter.len() {
        updates_hold(state, shorter, i);
    }
}

proof fn removal_drops(state: ListenersState, name: Seq<char>)
    requires
        state.in_order(),
    ensures
        state.removed(name).in_order(),
        forall|n: Seq<char>| #[trigger]
            table(state.removed(name).by_name).contains_key(n) <==> table(
                state.by_name,
            ).contains_key(n) && n != name,
{
    law_drop_key::<String, ListenerView>(state.by_name, name);
    law_drop_key::<(i32, (u8, Option<String>)), Seq<char>>(
        state.by_spot,
        spot(table(state.by_name)[name]),
    );
}

proof fn removals_drop(state: ListenersState, names: Seq<Seq<char>>)
    requires
        state.in_order(),
    ensures
        state.without(names).in_order(),
        forall|n: Seq<char>| #[trigger]
            table(state.without(names).by_name).contains_key(n) <==> table(
                state.by_name,
            ).contains_key(n) && !names.contains(n),
    decreases names.len(),
{
    if names.len() > 0 {
        let shorter = names.drop_last();
        removals_drop(state, shorter);
        removal_drops(state.without(shorter), names.last());
        assert forall|n: Seq<char>| names.contains(n) <==> shorter.contains(n) || n
            == names.last() by {
            if names.contains(n) && n != names.last() {
                let i = choose|i: int| 0 <= i < names.len() && names[i] == n;
                assert(shorter[i] == n);
            }
            if shorter.contains(n) {
                let i = choose|i: int| 0 <= i < shorter.len() && shorter[i] == n;
                assert(names[i] == n);
            }
            if n == names.last() {
                assert(names[names.len() - 1] == n);
            }
        }
    }
}

proof fn missing_is_not_given(state: ListenersState, listeners: Seq<ListenerView>, name: Seq<char>)
    ensures
        state.missing(listeners).contains(name) <==> table(state.by_name).contains_key(name)
            && !listeners.map_values(listener_name()).contains(name),
{
    let names = listeners.map_values(listener_name());
    let held = keys(state.by_name);
    chosen_contains(held, not_among(names), name);
    if held.contains(name) && !names.contains(name) {
        let i = choose|i: int| 0 <= i < held.len() && held[i] == name;
        assert(not_among(names)(held[i]) == Some(name));
    }
}

/// Once all listeners of a gateway are given, the listeners that are held are some of them, by their
/// names, and are in order. Each that is given is held, unless its port, protocol and hostname are taken.
pub proof fn law_given_listeners_are_held(state: ListenersState, listeners: Seq<ListenerView>)
    requires
        state.in_order(),
    ensures
        state.given(listeners).in_order(),
        forall|name: Seq<char>| #[trigger]
            table(state.given(listeners).by_name).contains_key(name) ==> listeners.map_values(
                listener_name(),
            ).contains(name),
        forall|i: int|
            0 <= i < listeners.len() ==> table(state.given(listeners).by_name).contains_key(
                listener_name()(#[trigger] listeners[i]),
            ) || table(state.given(listeners).by_spot).contains_key(spot(listeners[i])),
{
    let missing = state.missing(listeners);
    let start = state.without(missing);
    removals_drop(state, missing);
    updates_grow(start, listeners);
    assert forall|name: Seq<char>| #[trigger]
        table(state.given(listeners).by_name).contains_key(name) implies listeners.map_values(
        listener_name(),
    ).contains(name) by {
        missing_is_not_given(state, listeners, name);
        if table(start.by_name).contains_key(name) {
            assert(!missing.contains(name));
        }
    }
    assert forall|i: int| 0 <= i < listeners.len() implies table(
        state.given(listeners).by_name,
    ).contains_key(listener_name()(#[trigger] listeners[i])) || table(
        state.given(listeners).by_spot,
    ).contains_key(spot(listeners[i])) by {
        updates_hold(start, listeners, i);
    }
}

proof fn none_missing(state: ListenersState, listeners: Seq<ListenerView>)
    requires
        forall|name: Seq<char>| #[trigger]
            table(state.by_name).contains_key(name) ==> listeners.map_values(
                listener_name(),
            ).contains(name),
    ensures
        state.without(state.missing(listeners)) == state,
{
    let missing = state.missing(listeners);
    if missing.len() > 0 {
        missing_is_not_given(state, listeners, missing[0]);
        assert(missing.contains(missing[0]));
        assert(table(state.by_name).contains_key(missing[0]));
    }
}

/// Giving the same listeners of a gateway once more adds none.
pub proof fn law_given_again_adds_none(state: ListenersState, listeners: Seq<ListenerView>, i: int)
    requires
        state.in_order(),
        0 <= i < listeners.len(),
    ensures
        state.given(listeners).given_outcome(listeners, i) != Ok::<
            ListenerStatus,
            ListenerErrorView,
        >(ListenerStatus::Added),
{
    let after = state.given(listeners);
    law_given_listeners_are_held(state, listeners);
    none_missing(after, listeners);
    updates_grow(after, listeners.take(i));
    assert(table(after.by_name).contains_key(listener_name()(listeners[i])) || table(
        after.by_spot,
    ).contains_key(spot(listeners[i])));
}

/// Whether listeners have different names, and differ in their ports, protocols or hostnames.
pub open spec fn distinct(listeners: Seq<ListenerView>) -> bool {
    forall|i: int, j: int|
        0 <= i < j < listeners.len() ==> listener_name()(#[trigger] listeners[i])
            != listener_name()(#[trigger] listeners[j]) && spot(listeners[i]) != spot(listeners[j])
}

proof fn distinct_are_added(listeners: Seq<ListenerView>)
    requires
        distinct(listeners),
    ensures
        ({
            let next = ListenersState::nothing().updated_by(listeners);
            &&& next.in_order()
            &&& forall|n: Seq<char>| #[trigger]
                table(next.by_name).contains_key(n) <==> exists|i: int|
                    0 <= i < listeners.len() && listener_name()(#[trigger] listeners[i]) == n
            &&& forall|s: (i32, (u8, Option<Seq<char>>))| #[trigger]
                table(next.by_spot).contains_key(s) <==> exists|i: int|
                    0 <= i < listeners.len() && spot(#[trigger] listeners[i]) == s
        }),
    decreases listeners.len(),
{
    let next = ListenersState::nothing().updated_by(listeners);
    if listeners.len() > 0 {
        let shorter = listeners.drop_last();
        let last = listeners.last();
        let before = ListenersState::nothing().updated_by(shorter);
        assert forall|i: int, j: int| 0 <= i < j < shorter.len() implies listener_name()(
            #[trigger] shorter[i],
        ) != listener_name()(#[trigger] shorter[j]) && spot(shorter[i]) != spot(shorter[j]) by {
            assert(listeners[i] == shorter[i] && listeners[j] == shorter[j]);
        }
        distinct_are_added(shorter);
        assert forall|i: int| 0 <= i < shorter.len() implies listener_name()(
            #[trigger] shorter[i],
        ) != listener_name()(last) && spot(shorter[i]) != spot(last) by {
            assert(listeners[i] == shorter[i] && listeners[listeners.len() - 1] == last);
        }
        law_put::<String, ListenerView>(before.by_name, listener_name()(last), last);
        law_put::<(i32, (u8, Option<String>)), Seq<char>>(
            before.by_spot,
            spot(last),
            listener_name()(last),
        );
        assert forall|n: Seq<char>| #[trigger]
            table(next.by_name).contains_key(n) <==> exists|i: int|
                0 <= i < listeners.len() && listener_name()(#[trigger] listeners[i]) == n by {
            if table(before.by_name).contains_key(n) {
                let i = choose|i: int|
                    0 <= i < shorter.len() && listener_name()(#[trigger] shorter[i]) == n;
                assert(listeners[i] == shorter[i]);
            }
            if n == listener_name()(last) {
                assert(listener_name()(listeners[listeners.len() - 1]) == n);
            }
            if exists|i: int| 0 <= i < listeners.len() && listener_name()(
                #[trigger] listeners[i],
            ) == n {
                let i = choose|i: int|
                    0 <= i < listeners.len() && listener_name()(#[trigger] listeners[i]) == n;
                if i < shorter.len() {
                    assert(listener_name()(shorter[i]) == n);
                }
            }
        }
        assert forall|s: (i32, (u8, Option<Seq<char>>))| #[trigger]
            table(next.by_spot).contains_key(s) <==> exists|i: int|
                0 <= i < listeners.len() && spot(#[trigger] listeners[i]) == s by {
            if table(before.by_spot).contains_key(s) {
                let i = choose|i: int| 0 <= i < shorter.len() && spot(#[trigger] shorter[i]) == s;
                assert(listeners[i] == shorter[i]);
            }
            if s == spot(last) {
                assert(spot(listeners[listeners.len() - 1]) == s);
            }
            if exists|i: int| 0 <= i < listeners.len() && spot(#[trigger] listeners[i]) == s {
                let i = choose|i: int|
                    0 <= i < listeners.len() && spot(#[trigger] listeners[i]) == s;
                if i < shorter.len() {
                    assert(spot(shorter[i]) == s);
                }
            }
        }
    }
}

proof fn known_stay(state: ListenersState, listeners: Seq<ListenerView>)
    requires
        forall|i: int|
            0 <= i < listeners.len() ==> state.outcome(#[trigger] listeners[i]) == Ok::<
                ListenerStatus,
                ListenerErrorView,
            >(ListenerStatus::AlreadyConfigured),
    ensures
        state.updated_by(listeners) == state,
    decreases listeners.len(),
{
    if listeners.len() > 0 {
        let shorter = listeners.drop_last();
        assert forall|i: int| 0 <= i < shorter.len() implies state.outcome(#[trigger] shorter[i])
            == Ok::<ListenerStatus, ListenerErrorView>(ListenerStatus::AlreadyConfigured) by {
            assert(listeners[i] == shorter[i]);
        }
        known_stay(state, shorter);
        assert(state.outcome(listeners[listeners.len() - 1]) is Ok);
    }
}

/// Distinct listeners, given where there were none, are all added. Given once more, all are configured
/// already, and nothing changes.
pub proof fn law_distinct_listeners_are_added_once(listeners: Seq<ListenerView>)
    requires
        distinct(listeners),
    ensures
        forall|i: int|
            0 <= i < listeners.len() ==> #[trigger] ListenersState::nothing().given_outcome(
                listeners,
                i,
            ) == Ok::<ListenerStatus, ListenerErrorView>(ListenerStatus::Added),
        forall|i: int|
            0 <= i < listeners.len() ==> #[trigger] ListenersState::nothing().given(
                listeners,
            ).given_outcome(listeners, i) == Ok::<ListenerStatus, ListenerErrorView>(
                ListenerStatus::AlreadyConfigured,
            ),
        ListenersState::nothing().given(listeners).given(listeners)
            == ListenersState::nothing().given(listeners),
{
    let nothing = ListenersState::nothing();
    let after = nothing.given(listeners);
    none_missing(nothing, listeners);
    distinct_are_added(listeners);
    assert forall|i: int| 0 <= i < listeners.len() implies #[trigger] nothing.given_outcome(
        listeners,
        i,
    ) == Ok::<ListenerStatus, ListenerErrorView>(ListenerStatus::Added) by {
        let first = listeners.take(i);
        assert forall|j: int| 0 <= j < i implies listener_name()(#[trigger] first[j])
            != listener_name()(listeners[i]) && spot(first[j]) != spot(listeners[i]) by {
            assert(first[j] == listeners[j]);
        }
        assert forall|j: int, k: int| 0 <= j < k < first.len() implies listener_name()(
            #[trigger] first[j],
        ) != listener_name()(#[trigger] first[k]) && spot(first[j]) != spot(first[k]) by {
            assert(first[j] == listeners[j] && first[k] == listeners[k]);
        }
        distinct_are_added(first);
    }
    law_given_listeners_are_held(nothing, listeners);
    none_missing(after, listeners);
    assert forall|i: int| 0 <= i < listeners.len() implies after.outcome(#[trigger] listeners[i])
        == Ok::<ListenerStatus, ListenerErrorView>(ListenerStatus::AlreadyConfigured) by {
        assert(listener_name()(listeners[i]) == listener_name()(listeners[i]));
        assert(spot(listeners[i]) == spot(listeners[i]));
    }
    known_stay(after, listeners);
    assert forall|i: int| 0 <= i < listeners.len() implies #[trigger] after.given_outcome(
        listeners,
        i,
    ) == Ok::<ListenerStatus, ListenerErrorView>(ListenerStatus::AlreadyConfigured) by {
        let first = listeners.take(i);
        assert forall|j: int| 0 <= j < first.len() implies after.outcome(#[trigger] first[j])
            == Ok::<ListenerStatus, ListenerErrorView>(ListenerStatus::AlreadyConfigured) by {
            assert(first[j] == listeners[j]);
        }
        known_stay(after, first);
        assert(after.outcome(listeners[i]) is Ok);
    }
}

/// A listener that was added keeps others, of other names, from its port, protocol and hostname.
pub proof fn law_added_listener_is_distinct(
    state: ListenersState,
    listener: ListenerView,
    other: ListenerView,
)
    requires
        state.in_order(),
        state.outcome(listener) == Ok::<ListenerStatus, ListenerErrorView>(ListenerStatus::Added),
        spot(other) == spot(listener),
        !table(state.by_name).contains_key(listener_name()(other)),
        listener_name()(other) != listener_name()(listener),
    ensures
        state.updated(listener).outcome(other) is Err,
        state.updated(listener).updated(other) == state.updated(listener),
{
    law_put::<String, ListenerView>(state.by_name, listener_name()(listener), listener);
    law_put::<(i32, (u8, Option<String>)), Seq<char>>(
        state.by_spot,
        spot(listener),
        listener_name()(listener),
    );
}

/// Removing a listener that was just added leaves what was there before.
pub proof fn law_remove_undoes_add(state: ListenersState, listener: ListenerView)
    requires
        state.in_order(),
        state.outcome(listener) == Ok::<ListenerStatus, ListenerErrorView>(ListenerStatus::Added),
    ensures
        table(state.updated(listener).removed(listener_name()(listener)).by_name) == table(state.by_name),
        table(state.updated(listener).removed(listener_name()(listener)).by_spot) == table(state.by_spot),
{
    let name = listener_name()(listener);
    let next = state.updated(listener);
    law_put::<String, ListenerView>(state.by_name, name, listener);
    law_put::<(i32, (u8, Option<String>)), Seq<char>>(state.by_spot, spot(listener), name);
    law_drop_key::<String, ListenerView>(next.by_name, name);
    law_drop_key::<(i32, (u8, Option<String>)), Seq<char>>(next.by_spot, spot(listener));
    assert(table(next.removed(name).by_name) =~= table(state.by_name));
    assert(table(next.removed(name).by_spot) =~= table(state.by_spot));
}

/// The gateways, by their names.
#[derive(Debug)]
pub struct Gateways {
    gateways: OrderedMap<String, Listeners>,
}

impl Gateways {
    /// The listeners of the gateways.
    pub closed spec fn listeners(&self) -> Seq<(Seq<char>, ListenersState)> {
        self.gateways.deep_view()
    }

    /// Whether the gateways are in the order of their names, and the listeners of each are in order.
    #[verifier::type_invariant]
    pub open spec fn in_order(self) -> bool {
        &&& increasing::<String>(keys(self.listeners()))
        &&& forall|i: int|
            0 <= i < self.listeners().len() ==> (#[trigger] self.listeners()[i]).1.in_order()
    }

    /// No gateways.
    pub fn new() -> (r: Self)
        ensures
            r.listeners() == Seq::<(Seq<char>, ListenersState)>::empty(),
            r.in_order(),
    {
        Gateways { gateways: OrderedMap::new() }
    }

    /// Takes all listeners of a gateway. What became of each is given back under its name.
    pub fn update_listeners(&mut self, gateway_name: String, listeners: &Vec<Listener>) -> (r: Vec<
        (String, Result<ListenerStatus, ListenerError>),
    >)
        ensures
            ({
                let before = if table(old(self).listeners()).contains_key(gateway_name@) {
                    table(old(self).listeners())[gateway_name@]
                } else {
                    ListenersState::nothing()
                };
                &&& final(self).listeners() == put::<String, ListenersState>(
                    old(self).listeners(),
                    gateway_name@,
                    before.given(listeners.deep_view()),
                )
                &&& r@.len() == listeners.deep_view().len()
                &&& forall|i: int|
                    0 <= i < r@.len() ==> {
                        &&& (#[trigger] r@[i]).0@ == listener_name()(listeners.deep_view()[i])
                        &&& outcome_is(r@[i].1, before.given_outcome(listeners.deep_view(), i))
                    }
            }),
            final(self).in_order(),
    {
        proof {
            use_type_invariant(&*self);
        }
        let ghost before = self.listeners();
        let mut gateways: OrderedMap<String, Listeners> = OrderedMap::new();
        std::mem::swap(&mut gateways, &mut self.gateways);
        let mut gateway = match gateways.get(&gateway_name) {
            Some(gateway) => gateway.dup(),
            None => Listeners::new(),
        };
        let updated = gateway.update_listeners(listeners);
        let ghost name = gateway_name@;
        gateways.insert(gateway_name, gateway);
        proof {
            let after = gateways.deep_view();
            law_put::<String, ListenersState>(before, name, gateway.deep_view());
            slot_bounds::<String>(keys(before), name);
            let p = slot::<String>(keys(before), name);
            assert forall|i: int| 0 <= i < after.len() implies (#[trigger] after[i]).1.in_order() by {
                let j = if hits::<String>(keys(before), name) || i < p { i } else { i - 1 };
                if i != p {
                    assert(after[i] == before[j]);
                }
            }
        }
        self.gateways = gateways;
        updated
    }

    /// Forgets a gateway.
    pub fn remove_listeners(&mut self, gateway: &String)
        ensures
            final(self).listeners() == drop_key::<String, ListenersState>(
                old(self).listeners(),
                gateway@,
            ),
            final(self).in_order(),
    {
        proof {
            use_type_invariant(&*self);
        }
        let ghost before = self.listeners();
        let mut gateways: OrderedMap<String, Listeners> = OrderedMap::new();
        std::mem::swap(&mut gateways, &mut self.gateways);
        let _ = gateways.remove(gateway);
        proof {
            let after = gateways.deep_view();
            law_drop_key::<String, ListenersState>(before, gateway@);
            slot_bounds::<String>(keys(before), gateway@);
            let p = slot::<String>(keys(before), gateway@);
            assert forall|i: int| 0 <= i < after.len() implies (#[trigger] after[i]).1.in_order() by {
                let j = if !hits::<String>(keys(before), gateway@) || i < p { i } else { i + 1 };
                assert(after[i] == before[j]);
            }
        }
        self.gateways = gateways;
    }
}

/// What became of the listeners of a gateway, with its routes.
#[derive(Debug)]
pub struct GatewayProcessedPayload {
    pub listeners: Vec<(String, Result<ListenerStatus, ListenerError>)>,
    pub routes: Vec<Route>,
}

impl GatewayProcessedPayload {
    /// What became of the listeners of a gateway, with its routes.
    pub fn new(
        listeners: Vec<(String, Result<ListenerStatus, ListenerError>)>,
        routes: Vec<Route>,
    ) -> (r: Self)
        ensures
            r.listeners == listeners,
            r.routes == routes,
    {
        GatewayProcessedPayload { listeners, routes }
    }
}

/// What became of a route, with the listeners that it is attached to.
#[derive(Debug)]
pub struct RouteProcessedPayload {
    pub status: RouteStatus,
    pub listeners: Vec<String>,
}

impl RouteProcessedPayload {
    /// What became of a route, with the listeners that it is attached to.
    pub fn new(status: RouteStatus, listeners: Vec<String>) -> (r: Self)
        ensures
            r.status == status,
            r.listeners == listeners,
    {
        RouteProcessedPayload { status, listeners }
    }
}

/// What is answered where a gateway or a route changed.
#[derive(Debug)]
pub enum GatewayResponse {
    GatewayProcessed(GatewayProcessedPayload),
    GatewayDeleted,
    RouteProcessed(RouteProcessedPayload),
    RouteDeleted,
}

/// A change of a gateway or of a route.
#[derive(Debug)]
pub enum GatewayEvent {
    GatewayChanged(String, Vec<Listener>, Vec<Route>),
    GatewayDeleted(String),
    RouteChanged(String, Vec<Listener>, Route),
}

impl GatewayEvent {
    /// The text that the change is shown by, where `listeners` and `routes` are what is shown of all that
    /// is in them.
    pub open spec fn shown(self, listeners: Seq<char>, routes: Seq<char>) -> Seq<char> {
        match self {
            GatewayEvent::GatewayChanged(name, _, _) => "GatewayEvent::GatewayChanged "@ + name@
                + " listeners "@ + listeners + " routes "@ + routes,
            GatewayEvent::GatewayDeleted(name) => "GatewayEvent::GatewayDeleted "@ + name@,
            GatewayEvent::RouteChanged(name, _, _) => "GatewayEvent::RouteChanged "@ + name@
                + " listeners "@ + listeners + " routes "@ + routes,
        }
    }

    /// The text that the change is shown by.
    pub fn to_text(&self, listeners: &str, routes: &str) -> (r: String)
        ensures
            r@ == self.shown(listeners@, routes@),
    {
        match self {
            GatewayEvent::GatewayChanged(name, _, _) => {
                let start = cat3("GatewayEvent::GatewayChanged ", name.as_str(), " listeners ");
                let middle = cat3(start.as_str(), listeners, " routes ");
                cat(middle.as_str(), routes)
            },
            GatewayEvent::GatewayDeleted(name) => cat(
                "GatewayEvent::GatewayDeleted ",
                name.as_str(),
            ),
            GatewayEvent::RouteChanged(name, _, _) => {
                let start = cat3("GatewayEvent::RouteChanged ", name.as_str(), " listeners ");
                let middle = cat3(start.as_str(), listeners, " routes ");
                cat(middle.as_str(), routes)
            },
        }
    }
}

impl Gateways {
    /// Takes a change. The answer is given back.
    pub fn on_event(&mut self, event: GatewayEvent) -> (r: GatewayResponse)
        ensures
            match event {
                GatewayEvent::GatewayChanged(name, listeners, routes) => {
                    let before = if table(old(self).listeners()).contains_key(name@) {
                        table(old(self).listeners())[name@]
                    } else {
                        ListenersState::nothing()
                    };
                    &&& final(self).listeners() == put::<String, ListenersState>(
                        old(self).listeners(),
                        name@,
                        before.given(listeners.deep_view()),
                    )
                    &&& r is GatewayProcessed
                    &&& r->GatewayProcessed_0.routes == routes
                    &&& r->GatewayProcessed_0.listeners@.len() == listeners.deep_view().len()
                    &&& forall|i: int|
                        0 <= i < r->GatewayProcessed_0.listeners@.len() ==> {
                            &&& (#[trigger] r->GatewayProcessed_0.listeners@[i]).0@ == listener_name()(
                                listeners.deep_view()[i],
                            )
                            &&& outcome_is(
                                r->GatewayProcessed_0.listeners@[i].1,
                                before.given_outcome(listeners.deep_view(), i),
                            )
                        }
                },
                GatewayEvent::GatewayDeleted(name) => {
                    &&& r is GatewayDeleted
                    &&& final(self).listeners() == drop_key::<String, ListenersState>(
                        old(self).listeners(),
                        name@,
                    )
                },
                GatewayEvent::RouteChanged(_, _, _) => {
                    &&& r is RouteProcessed
                    &&& r->RouteProcessed_0.status == RouteStatus::Attached
                    &&& r->RouteProcessed_0.listeners@.len() == 0
                    &&& final(self).listeners() == old(self).listeners()
                },
            },
            final(self).in_order(),
    {
        proof {
            use_type_invariant(&*self);
        }
        match event {
            GatewayEvent::GatewayChanged(name, listeners, routes) => {
                let processed = self.update_listeners(name, &listeners);
                GatewayResponse::GatewayProcessed(GatewayProcessedPayload::new(processed, routes))
            },
            GatewayEvent::GatewayDeleted(name) => {
                self.remove_listeners(&name);
                GatewayResponse::GatewayDeleted
            },
            GatewayEvent::RouteChanged(_, _, _) => GatewayResponse::RouteProcessed(
                RouteProcessedPayload::new(RouteStatus::Attached, Vec::new()),
            ),
        }
    }
}

/// A status is shown by its name.
pub proof fn law_status_is_shown(status: ListenerStatus)
    ensures
        status is Added ==> status.shown() == "Added"@,
        status is Updated ==> status.shown() == "Updated"@,
        status is AlreadyConfigured ==> status.shown() == "AlreadyConfigured"@,
{
}

/// Two listeners are at one spot where they have the same port, protocol and hostname.
pub proof fn law_spot(a: ListenerView, b: ListenerView)
    ensures
        spot(a) == spot(b) <==> a.made_of().config.port == b.made_of().config.port && a.speaks()
            == b.speaks() && a.made_of().config.hostname == b.made_of().config.hostname,
        spot(a).0 == a.made_of().config.port,
        spot(a).1.1 == a.made_of().config.hostname,
        protocol_place(ProtocolType::Http) == 1,
        protocol_place(ProtocolType::Https) == 2,
        protocol_place(ProtocolType::Tcp) == 3,
        protocol_place(ProtocolType::Tls) == 4,
        protocol_place(ProtocolType::Udp) == 5,
        protocol_place(ProtocolType::Unknown) == 0,
{
}

/// A listener of a new name is added where its spot is free, and is refused, with its name and its spot,
/// where it is taken. One of a known name is updated where its spot is free, and is configured already
/// where it is taken.
pub proof fn law_outcome(state: ListenersState, listener: ListenerView)
    ensures
        ({
            let config = listener.made_of().config;
            let known = table(state.by_name).contains_key(config.name);
            let taken = table(state.by_spot).contains_key(spot(listener));
            &&& !known && !taken ==> state.outcome(listener) == Ok::<
                ListenerStatus,
                ListenerErrorView,
            >(ListenerStatus::Added)
            &&& !known && taken ==> state.outcome(listener) == Err::<
                ListenerStatus,
                ListenerErrorView,
            >(
                ListenerErrorView::NotDistinct(
                    config.name,
                    config.port,
                    listener.speaks(),
                    config.hostname,
                ),
            )
            &&& known && !taken ==> state.outcome(listener) == Ok::<
                ListenerStatus,
                ListenerErrorView,
            >(ListenerStatus::Updated)
            &&& known && taken ==> state.outcome(listener) == Ok::<
                ListenerStatus,
                ListenerErrorView,
            >(ListenerStatus::AlreadyConfigured)
        }),
{
}

/// A listener that is added or updated is held under its name; where it is added, its spot is taken.
/// Nothing else changes, and nothing at all where it is neither.
pub proof fn law_update(state: ListenersState, listener: ListenerView)
    requires
        state.in_order(),
    ensures
        ({
            let name = listener.made_of().config.name;
            let after = state.updated(listener);
            match state.outcome(listener) {
                Ok(ListenerStatus::Added) => {
                    &&& table(after.by_name) == table(state.by_name).insert(name, listener)
                    &&& table(after.by_spot) == table(state.by_spot).insert(spot(listener), name)
                },
                Ok(ListenerStatus::Updated) => {
                    &&& table(after.by_name) == table(state.by_name).insert(name, listener)
                    &&& after.by_spot == state.by_spot
                },
                _ => after == state,
            }
        }),
{
    let name = listener.made_of().config.name;
    law_put::<String, ListenerView>(state.by_name, name, listener);
    law_put::<(i32, (u8, Option<String>)), Seq<char>>(state.by_spot, spot(listener), name);
}

/// A listener that is removed is no longer held, and its spot is free. Nothing else changes, and nothing
/// at all where its name is not known.
pub proof fn law_remove(state: ListenersState, name: Seq<char>)
    requires
        state.in_order(),
    ensures
        !table(state.by_name).contains_key(name) ==> state.removed(name) == state,
        table(state.by_name).contains_key(name) ==> {
            &&& table(state.removed(name).by_name) == table(state.by_name).remove(name)
            &&& table(state.removed(name).by_spot) == table(state.by_spot).remove(
                spot(table(state.by_name)[name]),
            )
        },
{
    if table(state.by_name).contains_key(name) {
        law_drop_key::<String, ListenerView>(state.by_name, name);
        law_drop_key::<(i32, (u8, Option<String>)), Seq<char>>(
            state.by_spot,
            spot(table(state.by_name)[name]),
        );
    }
}

/// The listeners that are missing are those that are held and not given.
pub proof fn law_missing(state: ListenersState, listeners: Seq<ListenerView>, name: Seq<char>)
    ensures
        state.missing(listeners).contains(name) <==> keys(state.by_name).contains(name) && forall|
            i: int,
        | 0 <= i < listeners.len() ==> (#[trigger] listeners[i]).made_of().config.name != name,
{
    let names = listeners.map_values(listener_name());
    let held = keys(state.by_name);
    chosen_contains(held, not_among(names), name);
    assert(names.contains(name) <==> exists|i: int|
        0 <= i < listeners.len() && (#[trigger] listeners[i]).made_of().config.name == name) by {
        if names.contains(name) {
            let i = choose|i: int| 0 <= i < names.len() && names[i] == name;
            assert(listeners[i].made_of().config.name == name);
        }
        if exists|i: int|
            0 <= i < listeners.len() && (#[trigger] listeners[i]).made_of().config.name == name {
            let i = choose|i: int|
                0 <= i < listeners.len() && (#[trigger] listeners[i]).made_of().config.name == name;
            assert(names[i] == name);
        }
    }
    if held.contains(name) && !names.contains(name) {
        let k = choose|k: int| 0 <= k < held.len() && held[k] == name;
        assert(not_among(names)(held[k]) == Some(name));
    }
}

/// A change is shown by its kind and the name of its gateway, and, where the gateway is still there, by its
/// listeners and routes.
pub proof fn law_change_is_shown(event: GatewayEvent, listeners: Seq<char>, routes: Seq<char>)
    ensures
        event matches GatewayEvent::GatewayChanged(name, _, _) ==> event.shown(listeners, routes)
            == "GatewayEvent::GatewayChanged "@ + name@ + " listeners "@ + listeners + " routes "@
            + routes,
        event matches GatewayEvent::GatewayDeleted(name) ==> event.shown(listeners, routes)
            == "GatewayEvent::GatewayDeleted "@ + name@,
        event matches GatewayEvent::RouteChanged(name, _, _) ==> event.shown(listeners, routes)
            == "GatewayEvent::RouteChanged "@ + name@ + " listeners "@ + listeners + " routes "@
            + routes,
{
}

/// Listeners are updated and removed one after the other, the first one first.
pub proof fn law_one_after_the_other(
    state: ListenersState,
    listeners: Seq<ListenerView>,
    listener: ListenerView,
    names: Seq<Seq<char>>,
    name: Seq<char>,
)
    ensures
        state.updated_by(Seq::empty()) == state,
        state.updated_by(listeners.push(listener)) == state.updated_by(listeners).updated(listener),
        state.without(Seq::empty()) == state,
        state.without(names.push(name)) == state.without(names).removed(name),
{
    assert(listeners.push(listener).drop_last() =~= listeners);
    assert(names.push(name).drop_last() =~= names);
}

} // verus!
