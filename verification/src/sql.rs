//! What the resolver asks of its databases, and what they answer.

use vstd::prelude::*;

verus! {

/// A value bound to a placeholder of a statement.
#[derive(Debug, PartialEq, Eq)]
pub enum Param {
    Int(i64),
    Text(String),
    Bool(bool),
    Null,
}

/// A bound value, its text as a sequence.
pub enum ParamView {
    Int(i64),
    Text(Seq<char>),
    Bool(bool),
    Null,
}

impl View for Param {
    type V = ParamView;

    open spec fn view(&self) -> ParamView {
        match self {
            Param::Int(i) => ParamView::Int(*i),
            Param::Text(s) => ParamView::Text(s@),
            Param::Bool(b) => ParamView::Bool(*b),
            Param::Null => ParamView::Null,
        }
    }
}

/// The view of a text that may be missing.
pub open spec fn text_view(text: Option<String>) -> Option<Seq<char>> {
    match text {
        Some(text) => Some(text@),
        None => None,
    }
}

/// How a text that may be missing is bound: a missing one as null.
pub open spec fn bound_text(text: Option<Seq<char>>) -> ParamView {
    match text {
        Some(text) => ParamView::Text(text),
        None => ParamView::Null,
    }
}

/// Binds a text that may be missing.
pub fn bind_text(text: &Option<String>) -> (param: Param)
    ensures
        param@ == bound_text(text_view(*text)),
{
    match text {
        Some(text) => Param::Text(text.clone()),
        None => Param::Null,
    }
}

/// A statement and the values of its placeholders, in order.
#[derive(Debug, PartialEq, Eq)]
pub struct Statement {
    pub sql: &'static str,
    pub params: Vec<Param>,
}

/// A statement, its texts as sequences.
pub struct StatementView {
    pub sql: Seq<char>,
    pub params: Seq<ParamView>,
}

impl View for Statement {
    type V = StatementView;

    open spec fn view(&self) -> StatementView {
        StatementView { sql: self.sql@, params: self.params@.map_values(|p: Param| p@) }
    }
}

/// An entry of the queue of missing tracks.
#[derive(Debug, PartialEq, Eq)]
pub struct QueuedTrack {
    pub rowid: i64,
    pub track_id: String,
}

/// An entry of the queue, its text as a sequence.
pub struct QueuedView {
    pub rowid: i64,
    pub track_id: Seq<char>,
}

impl View for QueuedTrack {
    type V = QueuedView;

    open spec fn view(&self) -> QueuedView {
        QueuedView { rowid: self.rowid, track_id: self.track_id@ }
    }
}

/// The view of an entry that may be missing.
pub open spec fn queued_view(item: Option<QueuedTrack>) -> Option<QueuedView> {
    match item {
        Some(item) => Some(item@),
        None => None,
    }
}

/// One step of a transaction.
#[derive(Debug, PartialEq, Eq)]
pub enum Request {
    /// Open the transaction.
    Begin,
    /// Execute the statement.
    Execute(Statement),
    /// Read the one row id that the statement selects; no row is a failure.
    FetchRowid(Statement),
    /// Read the queue entry that the statement selects, if it selects one.
    FetchQueued(Statement),
    /// Commit the transaction.
    Commit,
}

/// One step of a transaction, its texts as sequences.
pub enum RequestView {
    Begin,
    Execute(StatementView),
    FetchRowid(StatementView),
    FetchQueued(StatementView),
    Commit,
}

impl View for Request {
    type V = RequestView;

    open spec fn view(&self) -> RequestView {
        match self {
            Request::Begin => RequestView::Begin,
            Request::Execute(s) => RequestView::Execute(s@),
            Request::FetchRowid(s) => RequestView::FetchRowid(s@),
            Request::FetchQueued(s) => RequestView::FetchQueued(s@),
            Request::Commit => RequestView::Commit,
        }
    }
}

/// The view of a request that may be missing.
pub open spec fn request_view(request: Option<Request>) -> Option<RequestView> {
    match request {
        Some(request) => Some(request@),
        None => None,
    }
}

/// The answer to one step of a transaction. `E` is what the database calls an error.
#[derive(Debug, PartialEq, Eq)]
pub enum Reply<E> {
    Begun,
    Executed,
    Rowid(i64),
    Queued(Option<QueuedTrack>),
    Committed,
    /// The step failed, whichever it was, with this error.
    Failed(E),
}

/// The answer to one step of a transaction, its text as a sequence.
pub enum ReplyView<E> {
    Begun,
    Executed,
    Rowid(i64),
    Queued(Option<QueuedView>),
    Committed,
    Failed(E),
}

impl<E> View for Reply<E> {
    type V = ReplyView<E>;

    open spec fn view(&self) -> ReplyView<E> {
        match self {
            Reply::Begun => ReplyView::Begun,
            Reply::Executed => ReplyView::Executed,
            Reply::Rowid(rowid) => ReplyView::Rowid(*rowid),
            Reply::Queued(item) => ReplyView::Queued(queued_view(*item)),
            Reply::Committed => ReplyView::Committed,
            Reply::Failed(error) => ReplyView::Failed(*error),
        }
    }
}

/// A bound value is seen as it is: an integer, a truth value or a null as itself, a text
/// as its characters.
pub proof fn law_bound_value_is_seen_as_it_is(param: Param)
    ensures
        match param {
            Param::Int(i) => param@ == ParamView::Int(i),
            Param::Text(text) => param@ == ParamView::Text(text@),
            Param::Bool(b) => param@ == ParamView::Bool(b),
            Param::Null => param@ == ParamView::Null,
        },
{
}

/// A statement is seen with its own text and with every value in its own place.
pub proof fn law_statement_is_seen_as_it_is(s: Statement)
    ensures
        s@.sql == s.sql@,
        s@.params.len() == s.params@.len(),
        forall|i: int| 0 <= i < s.params@.len() ==> #[trigger] s@.params[i] == s.params@[i]@,
{
}

/// A request is seen as the step that it is, with its own statement.
pub proof fn law_request_is_seen_as_it_is(request: Request)
    ensures
        match request {
            Request::Begin => request@ == RequestView::Begin,
            Request::Execute(s) => request@ == RequestView::Execute(s@),
            Request::FetchRowid(s) => request@ == RequestView::FetchRowid(s@),
            Request::FetchQueued(s) => request@ == RequestView::FetchQueued(s@),
            Request::Commit => request@ == RequestView::Commit,
        },
        request_view(Some(request)) == Some(request@),
        request_view(None) is None,
{
}

/// A reply is seen as the answer that it is, with its own row id, entry or error.
pub proof fn law_reply_is_seen_as_it_is<E>(reply: Reply<E>)
    ensures
        match reply {
            Reply::Begun => reply@ == ReplyView::<E>::Begun,
            Reply::Executed => reply@ == ReplyView::<E>::Executed,
            Reply::Rowid(rowid) => reply@ == ReplyView::<E>::Rowid(rowid),
            Reply::Queued(Some(item)) => reply@ == ReplyView::<E>::Queued(
                Some(QueuedView { rowid: item.rowid, track_id: item.track_id@ }),
            ),
            Reply::Queued(None) => reply@ == ReplyView::<E>::Queued(None),
            Reply::Committed => reply@ == ReplyView::<E>::Committed,
            Reply::Failed(error) => reply@ == ReplyView::<E>::Failed(error),
        },
{
}

/// A text that may be missing is bound as itself, or as a null where it is missing.
pub proof fn law_missing_text_is_bound_as_null(text: Option<String>, param: Param)
    requires
        call_ensures(bind_text, (&text,), param),
    ensures
        match text {
            Some(text) => param matches Param::Text(bound) && bound@ == text@,
            None => param is Null,
        },
{
}

/// A statement.
pub open spec fn statement(sql: &str, params: Seq<ParamView>) -> StatementView {
    StatementView { sql: sql@, params }
}

} // verus!
