use vstd::prelude::*;
use crate::error::{Error, ErrorModel};
use crate::pack::{ResultSet, ResultSetModel};
use crate::api::data_view;

verus! {

/// The parameters for connecting to the store.
pub struct Login {
    pub host: String,
    pub db_name: String,
    pub user: String,
    pub password: String,
}

/// The store's connection string for the parameters; the password is left out
/// where it is empty.
pub open spec fn connection_text(host: Seq<char>, db_name: Seq<char>, user: Seq<char>, password: Seq<char>) -> Seq<char> {
    "host="@ + host + " dbname="@ + db_name + " user="@ + user + if password.len() == 0 {
        Seq::<char>::empty()
    } else {
        " password="@ + password
    }
}

impl Login {
    pub fn connection_string(&self) -> (r: String)
        ensures
            r@ == connection_text(self.host@, self.db_name@, self.user@, self.password@),
    {
        let mut s = String::from_str("host=");
        s.append(self.host.as_str());
        s.append(" dbname=");
        s.append(self.db_name.as_str());
        s.append(" user=");
        s.append(self.user.as_str());
        if self.password.as_str().unicode_len() > 0 {
            s.append(" password=");
            s.append(self.password.as_str());
        } else {
            assert(s@ =~= s@ + Seq::<char>::empty());
        }
        s
    }
}

/// Where a batch stands in its one connection's life.
#[derive(PartialEq, Eq, Structural)]
pub enum Phase {
    Connecting,
    Executing,
    Closing,
    Done,
    Failed,
}

/// What the store reported back.
pub enum DispatchEvent {
    Connected,
    /// The connection failed: with the store's own message where the server
    /// answered, `None` where it could not be reached.
    ConnectFailed(Option<String>),
    /// The next query finished: its rows, or the store's message.
    QueryDone(Result<ResultSet, String>),
    /// The connection was closed: `None`, or the message of a failed close.
    Closed(Option<String>),
}

/// What the caller is to do next.
#[derive(PartialEq, Eq, Structural)]
pub enum DispatchAction {
    /// Open the connection.
    Connect,
    /// Run the query of the request at this position.
    RunQuery(usize),
    /// Close the connection.
    Close,
    /// Stop and take the outcome.
    Finish,
}

/// The decisions of one batch: one connection, the queries strictly in
/// request order, each failure kept to its own request.
pub struct Dispatcher {
    pub phase: Phase,
    pub n: usize,
    pub results: Vec<Result<ResultSet, Error>>,
    pub failure: Option<Error>,
    pub close_failure: Option<Error>,
}

pub open spec fn results_view(rs: Seq<Result<ResultSet, Error>>) -> Seq<Result<ResultSetModel, ErrorModel>> {
    rs.map_values(|d: Result<ResultSet, Error>| data_view(d))
}

/// What a query's outcome becomes in the results.
pub open spec fn query_outcome(r: Result<ResultSetModel, Seq<char>>) -> Result<ResultSetModel, ErrorModel> {
    match r {
        Ok(rs) => Ok(rs),
        Err(m) => Err(ErrorModel::SqlExecution(m)),
    }
}

pub open spec fn event_outcome(r: Result<ResultSet, String>) -> Result<ResultSetModel, Seq<char>> {
    match r {
        Ok(rs) => Ok(rs@),
        Err(m) => Err(m@),
    }
}

impl Dispatcher {
    pub open spec fn wf(&self) -> bool {
        &&& self.results@.len() <= self.n
        &&& self.phase == Phase::Executing ==> self.results@.len() < self.n
        &&& (self.phase == Phase::Closing || self.phase == Phase::Done) ==> self.results@.len() == self.n
        &&& self.phase == Phase::Failed <==> self.failure is Some
        &&& (self.phase == Phase::Failed || self.phase == Phase::Connecting) ==> self.results@.len() == 0
    }

    /// The action that the current phase calls for.
    pub open spec fn action_of(&self) -> DispatchAction {
        match self.phase {
            Phase::Connecting => DispatchAction::Connect,
            Phase::Executing => DispatchAction::RunQuery(self.results@.len() as usize),
            Phase::Closing => DispatchAction::Close,
            _ => DispatchAction::Finish,
        }
    }

    /// A batch of `n` requests, before its connection is opened.
    pub fn new(n: usize) -> (r: Self)
        ensures
            r.wf(),
            r.n == n,
            r.phase == Phase::Connecting,
            r.results@.len() == 0,
            r.action_of() == DispatchAction::Connect,
    {
        Dispatcher { phase: Phase::Connecting, n, results: Vec::new(), failure: None, close_failure: None }
    }

    pub fn next_action(&self) -> (a: DispatchAction)
        ensures
            a == self.action_of(),
    {
        match self.phase {
            Phase::Connecting => DispatchAction::Connect,
            Phase::Executing => DispatchAction::RunQuery(self.results.len()),
            Phase::Closing => DispatchAction::Close,
            _ => DispatchAction::Finish,
        }
    }

    /// Takes in what the store reported and says what to do next. An event
    /// that does not fit the phase changes nothing.
    pub fn step(&mut self, ev: DispatchEvent) -> (a: DispatchAction)
        requires
            old(self).wf(),
        ensures
            final(self).wf(),
            final(self).n == old(self).n,
            a == final(self).action_of(),
            match (old(self).phase, ev) {
                (Phase::Connecting, DispatchEvent::Connected) => {
                    &&& final(self).phase == (if old(self).n == 0 { Phase::Closing } else { Phase::Executing })
                    &&& final(self).results@ == old(self).results@
                },
                (Phase::Connecting, DispatchEvent::ConnectFailed(m)) => {
                    &&& final(self).phase == Phase::Failed
                    &&& final(self).results@.len() == 0
                    &&& final(self).failure->0@ == match m {
                        Some(t) => ErrorModel::DbConnection(t@),
                        None => ErrorModel::ServerNotAvailable,
                    }
                },
                (Phase::Executing, DispatchEvent::QueryDone(q)) => {
                    &&& results_view(final(self).results@) == results_view(old(self).results@).push(
                        query_outcome(event_outcome(q)),
                    )
                    &&& final(self).phase == (if old(self).results@.len() + 1 == old(self).n {
                        Phase::Closing
                    } else {
                        Phase::Executing
                    })
                },
                (Phase::Closing, DispatchEvent::Closed(c)) => {
                    &&& final(self).phase == Phase::Done
                    &&& final(self).results@ == old(self).results@
                    &&& match c {
                        Some(t) => final(self).close_failure is Some && final(self).close_failure->0@ == ErrorModel::DbConnection(t@),
                        None => final(self).close_failure is None,
                    }
                },
                _ => final(self).phase == old(self).phase && final(self).results@ == old(self).results@,
            },
    {
        match ev {
            DispatchEvent::Connected => {
                if self.phase == Phase::Connecting {
                    if self.n == 0 {
                        self.phase = Phase::Closing;
                    } else {
                        self.phase = Phase::Executing;
                    }
                }
            },
            DispatchEvent::ConnectFailed(m) => {
                if self.phase == Phase::Connecting {
                    let e = match m {
                        Some(t) => Error::DbConnection(t),
                        None => Error::ServerNotAvailable,
                    };
                    self.failure = Some(e);
                    self.phase = Phase::Failed;
                }
            },
            DispatchEvent::QueryDone(q) => {
                if self.phase == Phase::Executing {
                    let ghost before = self.results@;
                    let r = match q {
                        Ok(rs) => Ok(rs),
                        Err(m) => Err(Error::SqlExecution(m)),
                    };
                    self.results.push(r);
                    assert(results_view(self.results@) =~= results_view(before).push(data_view(self.results@.last())));
                    if self.results.len() == self.n {
                        self.phase = Phase::Closing;
                    }
                }
            },
            DispatchEvent::Closed(c) => {
                if self.phase == Phase::Closing {
                    self.close_failure = match c {
                        Some(t) => Some(Error::DbConnection(t)),
                        None => None,
                    };
                    self.phase = Phase::Done;
                }
            },
        }
        self.next_action()
    }

    /// The batch's outcome: the results in request order, or the connection
    /// failure that stopped the batch before any query ran.
    pub fn finish(self) -> (r: Result<Vec<Result<ResultSet, Error>>, Error>)
        requires
            self.wf(),
            self.phase == Phase::Done || self.phase == Phase::Failed,
        ensures
            self.phase == Phase::Done ==> r is Ok && r->Ok_0@ == self.results@,
            self.phase == Phase::Failed ==> r is Err && r->Err_0@ == self.failure->0@,
    {
        match self.failure {
            Some(e) => Err(e),
            None => Ok(self.results),
        }
    }
}

} // verus!
