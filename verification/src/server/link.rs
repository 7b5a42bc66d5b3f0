//! Bringing the settings of a connection in line with those of the client that is about to use it.

#[allow(unused_imports)]
use crate::net::tracks;
use crate::net::{BackendKeyData, Parameters};
use crate::pool::config::clone_texts;
use crate::server::connection::Server;
#[allow(unused_imports)]
use crate::server::stats::Stats;
#[allow(unused_imports)]
use crate::text::views;
use crate::text::owned;
use vstd::prelude::*;

verus! {

/// Statements that make the settings of a client.
#[derive(Debug)]
pub struct LinkQueries {
    /// Names of settings that are fixed for a session, which a connection does not take over.
    pub fixed: Vec<String>,
    /// Statements that take back the settings of the last client.
    pub reset: Vec<String>,
    /// Statements that make the settings of this client.
    pub set: Vec<String>,
    /// Statements that make the settings of this client's open transaction.
    pub transaction: Vec<String>,
}

/// How far the settings have been brought in line.
#[derive(Clone, Copy, Debug, PartialEq, Eq, Structural)]
pub enum LinkPhase {
    /// They are in line outside of a transaction.
    Same,
    /// They differ, and statements have to be executed.
    Differ,
    /// The statements were executed.
    Settled,
    /// A transaction was started.
    Begun,
    /// The statements for the transaction were executed.
    Adjusted,
    /// Nothing more has to be done.
    Finished,
}

/// What has to be done to bring the settings of a connection in line.
#[derive(Debug)]
pub struct Link {
    /// How far that is.
    pub phase: LinkPhase,
    /// Settings that the connection has once the statements were executed.
    pub settings: Parameters,
    /// Statements for the settings.
    pub queries: Vec<String>,
    /// Statement that starts a transaction.
    pub start: Option<String>,
    /// Statements for the settings of the transaction.
    pub transaction: Vec<String>,
    /// Statements that change settings were executed.
    pub ran: bool,
    /// How many statements that change settings there are.
    pub executed: usize,
}

/// What to do next.
#[derive(Debug)]
pub enum LinkAction {
    /// Execute these statements.
    Run(Vec<String>),
    /// Nothing: so many statements that change settings were executed.
    Done(usize),
}

/// The settings outside of a transaction differ.
pub open spec fn differ(a: Parameters, b: Parameters) -> bool {
    !(forall|n: Seq<char>| #[trigger] a.value(n) == b.value(n))
}

/// The statements to execute next, and how far things are then.
pub open spec fn pending(link: Link) -> (LinkPhase, Option<Seq<Seq<char>>>) {
    match link.phase {
        LinkPhase::Differ if link.queries@.len() > 0 => (
            LinkPhase::Settled,
            Some(views(link.queries@)),
        ),
        LinkPhase::Same | LinkPhase::Differ | LinkPhase::Settled => match link.start {
            Some(start) => (LinkPhase::Begun, Some(seq![start@])),
            None => (LinkPhase::Finished, None),
        },
        LinkPhase::Begun => if link.transaction@.len() > 0 {
            (LinkPhase::Adjusted, Some(views(link.transaction@)))
        } else {
            (LinkPhase::Finished, None)
        },
        LinkPhase::Adjusted | LinkPhase::Finished => (LinkPhase::Finished, None),
    }
}

/// The settings of the connection are now those of the client.
pub open spec fn settles(link: Link) -> bool {
    link.phase == LinkPhase::Settled || (link.phase == LinkPhase::Differ && link.queries@.len()
        == 0)
}

/// The connection has these settings.
pub open spec fn took_over(client_params: Parameters, settings: Parameters) -> bool {
    &&& client_params.params@ == settings.params@
    &&& client_params.transaction@ == settings.transaction@
}

/// Statements that change settings were executed by now.
pub open spec fn has_run(link: Link) -> bool {
    link.ran || (link.phase == LinkPhase::Settled && link.queries@.len() > 0) || link.phase
        == LinkPhase::Adjusted
}

/// The settings that the client's open transaction made are now those of the connection.
pub open spec fn transaction_copied(
    before: Parameters,
    after: Parameters,
    client: Parameters,
) -> bool {
    &&& after.params == before.params
    &&& forall|n: Seq<char>| #[trigger]
        after.pending(n) == match client.pending(n) {
            Some(v) => Some(v),
            None => before.pending(n),
        }
}

/// A client was linked: it is known who it is, and `r` is what has to be done to bring the settings
/// in line with the client's.
pub open spec fn linked(
    before: Server,
    after: Server,
    id: BackendKeyData,
    params: Parameters,
    start_transaction: Option<&str>,
    queries: LinkQueries,
    r: Link,
) -> bool {
    let differs = differ(r.settings, before.client_params);
    &&& after == (Server {
        stats: Stats {
            client_id: Some(id),
            application_name: after.stats.application_name,
            ..before.stats
        },
        changed_params: after.changed_params,
        ..before
    })
    &&& after.stats.application_name@ == match params.value("application_name"@) {
        Some(v) => v,
        None => "PgDog"@,
    }
    &&& after.changed_params.cleared()
    &&& tracks(r.settings, params, queries.fixed@)
    &&& r.transaction == queries.transaction
    &&& !r.ran
    &&& match start_transaction {
        Some(start) => r.start matches Some(s) && s@ == start@,
        None => r.start is None,
    }
    &&& r.phase == if differs {
        LinkPhase::Differ
    } else {
        LinkPhase::Same
    }
    &&& r.queries@ == queries.reset@ + queries.set@
    &&& r.executed == (if differs {
        queries.reset@.len() + queries.set@.len()
    } else {
        0
    }) + (if start_transaction is Some {
        queries.transaction@.len()
    } else {
        0
    })
}

/// A step was taken to bring the settings in line, and `r` is what has to be done next.
pub open spec fn stepped(
    before: Server,
    after: Server,
    link: Link,
    link_after: Link,
    params: Parameters,
    r: LinkAction,
) -> bool {
    &&& after == (Server {
        client_params: after.client_params,
        changed_params: after.changed_params,
        ..before
    })
    &&& link_after == (Link { phase: pending(link).0, ran: has_run(link), ..link })
    &&& match pending(link).1 {
        Some(queries) => r matches LinkAction::Run(q) && views(q@) == queries
            && after.changed_params == before.changed_params,
        None => r == LinkAction::Done(link.executed) && if has_run(link) {
            after.changed_params.cleared()
        } else {
            after.changed_params == before.changed_params
        },
    }
    &&& settles(link) ==> took_over(after.client_params, link.settings)
    &&& link.phase == LinkPhase::Adjusted ==> transaction_copied(
        before.client_params,
        after.client_params,
        params,
    )
    &&& !settles(link) && link.phase != LinkPhase::Adjusted ==> after.client_params
        == before.client_params
}

impl Server {
    /// Link a client: take note of who it is, and say what has to be done to bring the settings
    /// in line with the client's. Statements are executed only where settings differ.
    pub fn link_client(
        &mut self,
        id: &BackendKeyData,
        params: &Parameters,
        start_transaction: Option<&str>,
        queries: LinkQueries,
    ) -> (r: Link)
        requires
            old(self).wf(),
            params.wf(),
            queries.reset@.len() + queries.set@.len() + queries.transaction@.len() <= usize::MAX,
        ensures
            final(self).wf(),
            r.settings.wf(),
            linked(*old(self), *final(self), *id, *params, start_transaction, queries, r),
    {
        let name = params.get_default("application_name", "PgDog");
        self.stats.link_client(name, *id);
        self.changed_params.clear();
        let settings = params.without_fixed(&queries.fixed);
        let differs = !settings.identical(&self.client_params);
        let mut all = queries.reset;
        let mut set = queries.set;
        all.append(&mut set);
        let start = match start_transaction {
            Some(s) => Some(owned(s)),
            None => None,
        };
        let mut executed: usize = 0;
        if differs {
            executed = all.len();
        }
        if start.is_some() {
            executed = executed + queries.transaction.len();
        }
        Link {
            phase: if differs {
                LinkPhase::Differ
            } else {
                LinkPhase::Same
            },
            settings,
            queries: all,
            start,
            transaction: queries.transaction,
            ran: false,
            executed,
        }
    }

    /// Say what to do next to bring the settings in line, once the statements given before were
    /// executed without error.
    pub fn link_next(&mut self, link: &mut Link, params: &Parameters) -> (r: LinkAction)
        requires
            old(self).wf(),
            params.wf(),
            old(link).settings.wf(),
        ensures
            final(self).wf(),
            stepped(*old(self), *final(self), *old(link), *final(link), *params, r),
            final(link).settings.wf(),
    {
        self.link_settings(link, params);
        match link.advance() {
            Some(queries) => LinkAction::Run(queries),
            None => {
                // What the server announced while the pooler changed settings is the pooler's own
                // doing.
                if link.ran {
                    self.changed_params.clear();
                }
                LinkAction::Done(link.executed)
            },
        }
    }

    /// Take note of the settings that the connection has by now.
    fn link_settings(&mut self, link: &Link, params: &Parameters)
        requires
            old(self).wf(),
            params.wf(),
            link.settings.wf(),
        ensures
            final(self).wf(),
            *final(self) == (Server { client_params: final(self).client_params, ..*old(self) }),
            settles(*link) ==> took_over(final(self).client_params, link.settings),
            link.phase == LinkPhase::Adjusted ==> transaction_copied(
                old(self).client_params,
                final(self).client_params,
                *params,
            ),
            !settles(*link) && link.phase != LinkPhase::Adjusted ==> *final(self) == *old(self),
    {
        match link.phase {
            LinkPhase::Differ => {
                if link.queries.len() == 0 {
                    self.client_params = link.settings.clone();
                }
            },
            LinkPhase::Settled => {
                self.client_params = link.settings.clone();
            },
            LinkPhase::Adjusted => {
                self.client_params.copy_in_transaction(params);
            },
            _ => {},
        }
    }
}

impl Link {
    /// The statements to execute next, if any.
    fn advance(&mut self) -> (r: Option<Vec<String>>)
        ensures
            *final(self) == (Link {
                phase: pending(*old(self)).0,
                ran: has_run(*old(self)),
                ..*old(self)
            }),
            match pending(*old(self)).1 {
                Some(queries) => r matches Some(q) && views(q@) == queries,
                None => r is None,
            },
    {
        let ran = self.ran || (self.phase == LinkPhase::Settled && self.queries.len() > 0)
            || self.phase == LinkPhase::Adjusted;
        self.ran = ran;
        match self.phase {
            LinkPhase::Differ => {
                if self.queries.len() > 0 {
                    self.phase = LinkPhase::Settled;
                    return Some(clone_texts(&self.queries));
                }
                self.advance_to_transaction()
            },
            LinkPhase::Same | LinkPhase::Settled => self.advance_to_transaction(),
            LinkPhase::Begun => {
                if self.transaction.len() > 0 {
                    self.phase = LinkPhase::Adjusted;
                    return Some(clone_texts(&self.transaction));
                }
                self.phase = LinkPhase::Finished;
                None
            },
            LinkPhase::Adjusted | LinkPhase::Finished => {
                self.phase = LinkPhase::Finished;
                None
            },
        }
    }

    /// The statement that starts the transaction, if there is to be one.
    fn advance_to_transaction(&mut self) -> (r: Option<Vec<String>>)
        ensures
            match old(self).start {
                Some(start) => r matches Some(q) && views(q@) == seq![start@] && *final(self) == (
                Link { phase: LinkPhase::Begun, ..*old(self) }),
                None => r is None && *final(self) == (Link {
                    phase: LinkPhase::Finished,
                    ..*old(self)
                }),
            },
    {
        match &self.start {
            Some(start) => {
                let mut queries: Vec<String> = Vec::new();
                queries.push(start.clone());
                assert(views(queries@) == seq![start@]);
                self.phase = LinkPhase::Begun;
                Some(queries)
            },
            None => {
                self.phase = LinkPhase::Finished;
                None
            },
        }
    }
}

/// A client whose settings are already those of the connection, and which is not inside of a
/// transaction, is linked without executing anything.
pub proof fn same_settings_need_nothing(link: Link)
    requires
        link.phase == LinkPhase::Same,
        link.start is None,
    ensures
        pending(link) == (LinkPhase::Finished, None::<Seq<Seq<char>>>),
{
}

/// The settings of the connection are those of the client, as far as the link has got to that.
pub open spec fn in_line(link: Link, client_params: Parameters) -> bool {
    match link.phase {
        LinkPhase::Differ | LinkPhase::Settled => true,
        _ => !differ(link.settings, client_params),
    }
}

/// Whatever the client, once its link is done the settings of the connection are the client's: each
/// step keeps them in line as far as the link has got.
pub proof fn links_bring_settings_in_line(
    before: Server,
    after: Server,
    link: Link,
    link_after: Link,
    params: Parameters,
    r: LinkAction,
)
    requires
        stepped(before, after, link, link_after, params, r),
        in_line(link, before.client_params),
    ensures
        in_line(link_after, after.client_params),
        link_after.settings == link.settings,
        r is Done ==> !differ(link.settings, after.client_params),
{
    if link.phase == LinkPhase::Adjusted {
        assert forall|n: Seq<char>| #[trigger]
            link.settings.value(n) == after.client_params.value(n) by {
            assert(link.settings.value(n) == before.client_params.value(n));
        }
    }
}

/// A connection that was linked to a client needs nothing to be linked to a client with the same
/// settings, be it the same one or another one: no statement is executed, none is counted, and
/// nothing counts as changed by the server.
pub proof fn equal_clients_need_nothing(
    before: Server,
    linked_to: Server,
    after: Server,
    settings: Parameters,
    id: BackendKeyData,
    params: Parameters,
    queries: LinkQueries,
    link: Link,
    link_after: Link,
    r: LinkAction,
)
    requires
        tracks(settings, params, queries.fixed@),
        !differ(settings, before.client_params),
        linked(before, linked_to, id, params, None, queries, link),
        stepped(linked_to, after, link, link_after, params, r),
    ensures
        r == LinkAction::Done(0),
        after.changed_params.cleared(),
        after.client_params == before.client_params,
{
    assert forall|n: Seq<char>| #[trigger]
        link.settings.value(n) == before.client_params.value(n) by {
        assert(settings.value(n) == before.client_params.value(n));
    }
}

/// A client was linked, and the steps of its link were taken one after the other until nothing more
/// had to be done.
pub open spec fn is_run(
    servers: Seq<Server>,
    links: Seq<Link>,
    actions: Seq<LinkAction>,
    params: Parameters,
) -> bool {
    &&& actions.len() > 0
    &&& servers.len() == actions.len() + 1
    &&& links.len() == actions.len() + 1
    &&& actions.last() is Done
    &&& forall|i: int|
        0 <= i < actions.len() ==> #[trigger] stepped(
            servers[i],
            servers[i + 1],
            links[i],
            links[i + 1],
            params,
            actions[i],
        )
}

proof fn lemma_run(
    servers: Seq<Server>,
    links: Seq<Link>,
    actions: Seq<LinkAction>,
    params: Parameters,
    i: int,
)
    requires
        is_run(servers, links, actions, params),
        in_line(links[0], servers[0].client_params),
        0 <= i < links.len(),
    ensures
        in_line(links[i], servers[i].client_params),
        links[i].settings == links[0].settings,
    decreases i,
{
    if i > 0 {
        let k = i - 1;
        lemma_run(servers, links, actions, params, k);
        assert(stepped(servers[k], servers[k + 1], links[k], links[k + 1], params, actions[k]));
        links_bring_settings_in_line(
            servers[k],
            servers[k + 1],
            links[k],
            links[k + 1],
            params,
            actions[k],
        );
    }
}

/// Once a client was linked, a client with the same settings is linked without executing anything,
/// as long as nothing else was done on the connection.
pub proof fn the_next_equal_client_needs_nothing(
    start: Server,
    servers: Seq<Server>,
    links: Seq<Link>,
    actions: Seq<LinkAction>,
    first_id: BackendKeyData,
    first: LinkQueries,
    params: Parameters,
    linked_to: Server,
    after: Server,
    id: BackendKeyData,
    queries: LinkQueries,
    link: Link,
    link_after: Link,
    r: LinkAction,
)
    requires
        linked(start, servers[0], first_id, params, None, first, links[0]),
        is_run(servers, links, actions, params),
        queries.fixed@ == first.fixed@,
        linked(servers.last(), linked_to, id, params, None, queries, link),
        stepped(linked_to, after, link, link_after, params, r),
    ensures
        r == LinkAction::Done(0),
        after.changed_params.cleared(),
{
    let n = actions.len() - 1;
    lemma_run(servers, links, actions, params, n);
    assert(stepped(servers[n], servers[n + 1], links[n], links[n + 1], params, actions[n]));
    links_bring_settings_in_line(
        servers[n],
        servers[n + 1],
        links[n],
        links[n + 1],
        params,
        actions[n],
    );
    equal_clients_need_nothing(
        servers.last(),
        linked_to,
        after,
        links[0].settings,
        id,
        params,
        queries,
        link,
        link_after,
        r,
    );
}

/// How many more steps a link can take.
pub open spec fn steps_left(phase: LinkPhase) -> nat {
    match phase {
        LinkPhase::Differ => 5,
        LinkPhase::Same => 4,
        LinkPhase::Settled => 4,
        LinkPhase::Begun => 2,
        LinkPhase::Adjusted => 1,
        LinkPhase::Finished => 0,
    }
}

/// Every link comes to an end: each step leads to a later phase, and after the statements for
/// the settings come those for the transaction, never the other way round.
pub proof fn links_end(link: Link)
    ensures
        link.phase != LinkPhase::Finished ==> steps_left(pending(link).0) < steps_left(link.phase),
        pending(link).1 is None <==> pending(link).0 == LinkPhase::Finished,
{
}

/// Where any setting of the client differs from the connection's, the statements that take back the
/// last client's settings are executed first, then those that make this client's; a setting that is
/// fixed for a session does not count. `n` is a setting that differs.
pub proof fn settings_that_differ_are_made(
    before: Server,
    linked_to: Server,
    after: Server,
    id: BackendKeyData,
    params: Parameters,
    start: Option<&str>,
    queries: LinkQueries,
    link: Link,
    link_after: Link,
    r: LinkAction,
    n: Seq<char>,
)
    requires
        linked(before, linked_to, id, params, start, queries, link),
        stepped(linked_to, after, link, link_after, params, r),
        !crate::net::lists(queries.fixed@, n),
        params.value(n) != before.client_params.value(n),
        queries.reset@.len() + queries.set@.len() > 0,
    ensures
        r matches LinkAction::Run(q) && views(q@) == views(queries.reset@) + views(queries.set@),
        link_after.executed == queries.reset@.len() + queries.set@.len() + if start is Some {
            queries.transaction@.len()
        } else {
            0
        },
        after.client_params == before.client_params,
{
    assert(link.settings.value(n) == params.value(n));
    assert(differ(link.settings, before.client_params));
    assert(views(queries.reset@ + queries.set@) == views(queries.reset@) + views(queries.set@));
}

/// A client that is inside of a transaction gets one on the connection, after the settings outside of
/// it are in line and before those that the transaction made.
pub proof fn transactions_are_started(
    before: Server,
    after: Server,
    link: Link,
    link_after: Link,
    params: Parameters,
    r: LinkAction,
)
    requires
        stepped(before, after, link, link_after, params, r),
        link.start is Some,
    ensures
        link.phase == LinkPhase::Same || link.phase == LinkPhase::Settled ==> (
        r matches LinkAction::Run(q) && q@.len() == 1 && q@[0]@ == link.start->Some_0@)
            && link_after.phase == LinkPhase::Begun,
        link.phase == LinkPhase::Begun && link.transaction@.len() > 0 ==> (
        r matches LinkAction::Run(q) && views(q@) == views(link.transaction@)),
        link.phase == LinkPhase::Begun && link.transaction@.len() == 0 ==> r == LinkAction::Done(
            link.executed,
        ),
{
    if link.phase == LinkPhase::Same || link.phase == LinkPhase::Settled {
        let q = r->Run_0;
        assert(views(q@)[0] == link.start->Some_0@);
        assert(views(q@).len() == 1);
        assert(views(q@)[0] == q@[0]@);
    }
}

/// A client is known from when it is linked: who it is, and what its application is called. What the
/// server announced before does not count as the client's doing.
pub proof fn linked_clients_are_known(
    before: Server,
    after: Server,
    id: BackendKeyData,
    params: Parameters,
    start: Option<&str>,
    queries: LinkQueries,
    r: Link,
)
    requires
        linked(before, after, id, params, start, queries, r),
    ensures
        after.stats.client_id == Some(id),
        params.value("application_name"@) matches Some(v) ==> after.stats.application_name@ == v,
        params.value("application_name"@) is None ==> after.stats.application_name@ == "PgDog"@,
        after.changed_params.params@.len() == 0,
        after.client_params == before.client_params && after.stats.state == before.stats.state,
        start matches Some(text) ==> r.start is Some && r.start->Some_0@ == text@,
        start is None ==> r.start is None,
{
}

} // verus!
