//! One exchange with a language server, from its start to its end, as a
//! machine that turns what happened into what is to be done next.

use vstd::prelude::*;

use crate::json;
use crate::json::Json;
use crate::json::JsonView;
use crate::lsp;
use crate::lsp::config::ConfigView;
use crate::lsp::config::LanguageServerConfig;
use crate::lsp::params;
use crate::lsp::parse;
use crate::lsp::FileText;
use crate::lsp::KnownFiles;
use crate::lsp::LspTextEdit;
use crate::lsp::TextEditView;
use crate::path::Platform;
use crate::text;

verus! {

/// What an exchange is for.
#[derive(Debug, Clone, Copy, PartialEq, Eq, Structural)]
pub enum ExchangeKind {
    /// One request and its reply.
    Request,
    /// One request and its reply, and the workspace edits that the server asks
    /// for in between.
    RequestTakingEdits,
    /// The diagnostics that the server publishes for the document.
    Diagnostics,
}

/// How far an exchange has come.
#[derive(Debug, Clone, Copy, PartialEq, Eq, Structural)]
pub enum Phase {
    New,
    Starting,
    SendingInitialize,
    AwaitingInitialize,
    SendingInitialized,
    SendingDidOpen,
    SendingRequest,
    AwaitingReply,
    /// Answering a request of the server; a failure to do so ends the wait for
    /// the reply only where the flag says so.
    Answering(bool),
    SendingShutdown,
    AwaitingShutdown,
    SendingExit,
    Closing,
    Done,
}

/// What the surroundings of an exchange report.
#[derive(Debug, PartialEq, Eq)]
pub enum ExchangeEvent {
    Begin,
    Started,
    StartFailed,
    Sent,
    SendFailed,
    Received(Json),
    /// Nothing more will be received in time.
    Silence,
    Closed,
}

/// How long to wait for a message.
#[derive(Debug, Clone, Copy, PartialEq, Eq, Structural)]
pub enum Wait {
    /// Within the time for the request, counted from the start of the server.
    Request,
    /// Within the time for the shutdown, counted from the first wait for it.
    Shutdown,
}

/// What the surroundings of an exchange are to do.
#[derive(Debug, PartialEq, Eq)]
pub enum ExchangeAction {
    Start,
    Send(Json),
    Receive(Wait),
    /// Stop the server at once.
    Kill,
    /// Stop the server unless it has ended by itself.
    Finish,
    Done,
}

pub enum EventView {
    Begin,
    Started,
    StartFailed,
    Sent,
    SendFailed,
    Received(JsonView),
    Silence,
    Closed,
}

pub enum ActionView {
    Start,
    Send(JsonView),
    Receive(Wait),
    Kill,
    Finish,
    Done,
}

impl View for ExchangeEvent {
    type V = EventView;

    open spec fn view(&self) -> EventView {
        match self {
            ExchangeEvent::Begin => EventView::Begin,
            ExchangeEvent::Started => EventView::Started,
            ExchangeEvent::StartFailed => EventView::StartFailed,
            ExchangeEvent::Sent => EventView::Sent,
            ExchangeEvent::SendFailed => EventView::SendFailed,
            ExchangeEvent::Received(value) => EventView::Received(value@),
            ExchangeEvent::Silence => EventView::Silence,
            ExchangeEvent::Closed => EventView::Closed,
        }
    }
}

impl View for ExchangeAction {
    type V = ActionView;

    open spec fn view(&self) -> ActionView {
        match self {
            ExchangeAction::Start => ActionView::Start,
            ExchangeAction::Send(value) => ActionView::Send(value@),
            ExchangeAction::Receive(wait) => ActionView::Receive(*wait),
            ExchangeAction::Kill => ActionView::Kill,
            ExchangeAction::Finish => ActionView::Finish,
            ExchangeAction::Done => ActionView::Done,
        }
    }
}

/// What a successful reply brought: its result, where it has one.
#[derive(Debug, PartialEq, Eq)]
pub struct LspResponse {
    pub result: Option<Json>,
}

/// An exchange with a language server about one document.
#[derive(Debug, PartialEq, Eq)]
pub struct LspExchange {
    pub kind: ExchangeKind,
    pub config: LanguageServerConfig,
    pub root: String,
    pub path: String,
    pub text: String,
    pub platform: Platform,
    pub version: String,
    pub method: String,
    pub params: Json,
    pub phase: Phase,
    pub response: Option<LspResponse>,
    pub edits: Vec<LspTextEdit>,
    pub published: Option<Json>,
}

/// What does not change during an exchange.
pub struct Plan {
    pub kind: ExchangeKind,
    pub config: ConfigView,
    pub root: Seq<char>,
    pub path: Seq<char>,
    pub text: Seq<char>,
    pub platform: Platform,
    pub version: Seq<char>,
    pub method: Seq<char>,
    pub params: JsonView,
}

pub struct ExchangeView {
    pub plan: Plan,
    pub phase: Phase,
    pub response: Option<Option<JsonView>>,
    pub edits: Seq<TextEditView>,
    pub published: Option<JsonView>,
}

/// A value that may be missing.
pub open spec fn maybe_json(value: Option<Json>) -> Option<JsonView> {
    match value {
        Some(v) => Some(v@),
        None => None,
    }
}

/// The result of a reply that may be missing.
pub open spec fn maybe_response(response: Option<LspResponse>) -> Option<Option<JsonView>> {
    match response {
        Some(r) => Some(maybe_json(r.result)),
        None => None,
    }
}

impl View for LspExchange {
    type V = ExchangeView;

    open spec fn view(&self) -> ExchangeView {
        ExchangeView {
            plan: Plan {
                kind: self.kind,
                config: self.config@,
                root: self.root@,
                path: self.path@,
                text: self.text@,
                platform: self.platform,
                version: self.version@,
                method: self.method@,
                params: self.params@,
            },
            phase: self.phase,
            response: maybe_response(self.response),
            edits: lsp::edits_view(self.edits@),
            published: maybe_json(self.published),
        }
    }
}

/// Whether a message carries this number as its id.
pub open spec fn has_id(value: JsonView, id: i64) -> bool {
    match value.get("id"@) {
        Some(v) => v.as_i64() == Some(id),
        None => false,
    }
}

/// What a reply brings: nothing where it reports an error.
pub open spec fn response_of(value: JsonView) -> Option<Option<JsonView>> {
    if value.get("error"@) is Some {
        None
    } else {
        Some(value.get("result"@))
    }
}

/// No file at all.
pub open spec fn nothing_known(platform: Platform) -> lsp::KnownView {
    lsp::KnownView {
        path: ""@,
        text: ""@,
        aliases: Seq::empty(),
        others: Seq::empty(),
        platform,
    }
}

/// The diagnostics that a message publishes of a document whose files are not
/// at hand.
pub open spec fn publishes_some(value: JsonView, server: Seq<char>, platform: Platform) -> bool {
    match parse::publish_diagnostics(value, nothing_known(platform), server) {
        Some(items) => items.len() > 0,
        None => false,
    }
}

impl ExchangeView {
    /// The same exchange in another phase.
    pub open spec fn at(self, phase: Phase) -> ExchangeView {
        ExchangeView { phase, ..self }
    }

    /// The exchange given up: the server is killed.
    pub open spec fn aborted(self) -> (ExchangeView, ActionView) {
        (self.at(Phase::Closing), ActionView::Kill)
    }

    /// The exchange on its way to an orderly end.
    pub open spec fn ending(self) -> (ExchangeView, ActionView) {
        (self.at(Phase::SendingShutdown), ActionView::Send(params::shutdown()))
    }

    pub open spec fn awaiting_reply(self) -> (ExchangeView, ActionView) {
        (self.at(Phase::AwaitingReply), ActionView::Receive(Wait::Request))
    }

    /// The exchange after a message that came while the reply was awaited.
    pub open spec fn after_message(self, value: JsonView) -> (ExchangeView, ActionView) {
        match self.plan.kind {
            ExchangeKind::Request => if has_id(value, 2) {
                ExchangeView { response: response_of(value), ..self }.ending()
            } else {
                self.awaiting_reply()
            },
            ExchangeKind::Diagnostics => if parse::published(value, self.plan.platform) is Some {
                let next = ExchangeView { published: Some(value), ..self };
                if publishes_some(value, self.plan.config.name, self.plan.platform) {
                    next.ending()
                } else {
                    next.awaiting_reply()
                }
            } else {
                self.awaiting_reply()
            },
            ExchangeKind::RequestTakingEdits => {
                let method = json::text_in(value.get("method"@));
                if method == Some("workspace/applyEdit"@) {
                    let id = match value.get("id"@) {
                        Some(id) => id,
                        None => JsonView::Null,
                    };
                    let edit = parse::workspace_edit(
                        json::member(value.get("params"@), "edit"@),
                        self.plan.config.name,
                        self.plan.platform,
                    );
                    let edits = match edit {
                        Some(e) => self.edits + e.edits,
                        None => self.edits,
                    };
                    (
                        ExchangeView { edits, ..self }.at(Phase::Answering(true)),
                        ActionView::Send(params::apply_edit_answer(id, edit is Some)),
                    )
                } else if method is Some && value.get("id"@) is Some {
                    (
                        self.at(Phase::Answering(false)),
                        ActionView::Send(params::unsupported_answer(value.get("id"@)->0)),
                    )
                } else if has_id(value, 2) {
                    ExchangeView { response: response_of(value), ..self }.ending()
                } else {
                    self.awaiting_reply()
                }
            },
        }
    }

    /// The exchange and what is to be done after an event. An event that the
    /// phase does not expect ends the exchange.
    pub open spec fn after(self, event: EventView) -> (ExchangeView, ActionView) {
        match (self.phase, event) {
            (Phase::New, EventView::Begin) => (self.at(Phase::Starting), ActionView::Start),
            (Phase::Starting, EventView::StartFailed) => (self.at(Phase::Done), ActionView::Done),
            (Phase::Starting, EventView::Started) => (
                self.at(Phase::SendingInitialize),
                ActionView::Send(
                    params::initialize(
                        self.plan.root,
                        self.plan.kind == ExchangeKind::RequestTakingEdits,
                        self.plan.version,
                    ),
                ),
            ),
            (Phase::SendingInitialize, EventView::Sent) => (
                self.at(Phase::AwaitingInitialize),
                ActionView::Receive(Wait::Request),
            ),
            (Phase::AwaitingInitialize, EventView::Received(value)) => if has_id(value, 1) {
                (self.at(Phase::SendingInitialized), ActionView::Send(params::initialized()))
            } else {
                (self, ActionView::Receive(Wait::Request))
            },
            (Phase::SendingInitialized, EventView::Sent) => (
                self.at(Phase::SendingDidOpen),
                ActionView::Send(
                    params::did_open(
                        self.plan.path,
                        self.plan.config.language_id,
                        self.plan.text,
                    ),
                ),
            ),
            (Phase::SendingDidOpen, EventView::Sent) => if self.plan.kind
                == ExchangeKind::Diagnostics {
                self.awaiting_reply()
            } else {
                (
                    self.at(Phase::SendingRequest),
                    ActionView::Send(params::request(2, self.plan.method, self.plan.params)),
                )
            },
            (Phase::SendingRequest, EventView::Sent) => self.awaiting_reply(),
            (Phase::AwaitingReply, EventView::Received(value)) => self.after_message(value),
            (Phase::AwaitingReply, EventView::Silence) => self.ending(),
            (Phase::Answering(_), EventView::Sent) => self.awaiting_reply(),
            (Phase::Answering(required), EventView::SendFailed) => if required {
                self.ending()
            } else {
                self.awaiting_reply()
            },
            (Phase::SendingShutdown, EventView::Sent) => (
                self.at(Phase::AwaitingShutdown),
                ActionView::Receive(Wait::Shutdown),
            ),
            (Phase::SendingShutdown, EventView::SendFailed) => (
                self.at(Phase::AwaitingShutdown),
                ActionView::Receive(Wait::Shutdown),
            ),
            (Phase::AwaitingShutdown, EventView::Received(value)) => if has_id(value, 3) {
                (self.at(Phase::SendingExit), ActionView::Send(params::exit()))
            } else {
                (self, ActionView::Receive(Wait::Shutdown))
            },
            (Phase::AwaitingShutdown, EventView::Silence) => (
                self.at(Phase::SendingExit),
                ActionView::Send(params::exit()),
            ),
            (Phase::SendingExit, EventView::Sent) => (self.at(Phase::Closing), ActionView::Finish),
            (Phase::SendingExit, EventView::SendFailed) => (
                self.at(Phase::Closing),
                ActionView::Finish,
            ),
            (Phase::Closing, EventView::Closed) => (self.at(Phase::Done), ActionView::Done),
            (Phase::Done, _) => (self, ActionView::Done),
            _ => self.aborted(),
        }
    }
}

fn message_has_id(value: &Json, id: i64) -> (yes: bool)
    ensures
        yes == has_id(value@, id),
{
    match value.get("id") {
        Some(v) => match v.as_i64() {
            Some(n) => n == id,
            None => false,
        },
        None => false,
    }
}

/// What a reply brings; nothing where it reports an error.
pub fn response_from(value: &Json) -> (response: Option<LspResponse>)
    ensures
        maybe_response(response) == response_of(value@),
{
    if value.get("error").is_some() {
        None
    } else {
        let result = match value.get("result") {
            Some(v) => Some(v.copy()),
            None => None,
        };
        Some(LspResponse { result })
    }
}

fn publishes_diagnostics(value: &Json, server: &str, platform: Platform) -> (some: Option<bool>)
    ensures
        some is Some <==> parse::published(value@, platform) is Some,
        some matches Some(yes) ==> yes == publishes_some(value@, server@, platform),
{
    let aliases: Vec<String> = Vec::new();
    let others: Vec<FileText> = Vec::new();
    let known = KnownFiles { path: "", text: "", aliases: &aliases, others: &others, platform };
    proof {
        assert(text::texts(aliases@) =~= Seq::<Seq<char>>::empty());
        assert(lsp::files_view(others@) =~= Seq::<lsp::FileView>::empty());
    }
    let found = parse::parse_publish_diagnostics(value, &known, server);
    match found {
        Some(items) => {
            assert(items@.len() == lsp::diagnostics_view(items@).len());
            Some(items.len() > 0)
        },
        None => None,
    }
}

impl LspExchange {
    fn await_reply(&mut self) -> (action: ExchangeAction)
        ensures
            (final(self)@, action@) == old(self)@.awaiting_reply(),
    {
        self.phase = Phase::AwaitingReply;
        ExchangeAction::Receive(Wait::Request)
    }

    fn end(&mut self) -> (action: ExchangeAction)
        ensures
            (final(self)@, action@) == old(self)@.ending(),
    {
        self.phase = Phase::SendingShutdown;
        ExchangeAction::Send(params::shutdown_message())
    }

    fn abort(&mut self) -> (action: ExchangeAction)
        ensures
            (final(self)@, action@) == old(self)@.aborted(),
    {
        self.phase = Phase::Closing;
        ExchangeAction::Kill
    }

    fn take_edit_request(&mut self, value: &Json) -> (action: ExchangeAction)
        requires
            old(self)@.plan.kind == ExchangeKind::RequestTakingEdits,
            json::text_in(value@.get("method"@)) == Some("workspace/applyEdit"@),
        ensures
            (final(self)@, action@) == old(self)@.after_message(value@),
    {
        let id = match value.get("id") {
            Some(id) => id.copy(),
            None => Json::Null,
        };
        let edit = parse::parse_workspace_edit(
            json::member_of(value.get("params"), "edit"),
            &self.config.name,
            self.platform,
        );
        let applied = edit.is_some();
        if let Some(edit) = edit {
            let mut more = edit.edits;
            let ghost before = self.edits@;
            let ghost added = more@;
            self.edits.append(&mut more);
            proof {
                assert(lsp::edits_view(self.edits@) =~= lsp::edits_view(before)
                    + lsp::edits_view(added));
            }
        }
        self.phase = Phase::Answering(true);
        ExchangeAction::Send(params::apply_edit_answer_message(id, applied))
    }

    /// Takes a message that came while the reply was awaited.
    fn take_message(&mut self, value: Json) -> (action: ExchangeAction)
        ensures
            (final(self)@, action@) == old(self)@.after_message(value@),
    {
        match self.kind {
            ExchangeKind::Request => {
                if message_has_id(&value, 2) {
                    self.response = response_from(&value);
                    self.end()
                } else {
                    self.await_reply()
                }
            },
            ExchangeKind::Diagnostics => {
                match publishes_diagnostics(&value, &self.config.name, self.platform) {
                    Some(some) => {
                        self.published = Some(value);
                        if some {
                            self.end()
                        } else {
                            self.await_reply()
                        }
                    },
                    None => self.await_reply(),
                }
            },
            ExchangeKind::RequestTakingEdits => {
                if json::is_text(value.get("method"), "workspace/applyEdit") {
                    return self.take_edit_request(&value);
                }
                let asks = json::text_of(value.get("method")).is_some();
                if asks {
                    if let Some(id) = value.get("id") {
                        self.phase = Phase::Answering(false);
                        return ExchangeAction::Send(params::unsupported_answer_message(id.copy()));
                    }
                }
                if message_has_id(&value, 2) {
                    self.response = response_from(&value);
                    self.end()
                } else {
                    self.await_reply()
                }
            },
        }
    }

    /// What is to be done after an event.
    pub fn next(&mut self, event: ExchangeEvent) -> (action: ExchangeAction)
        ensures
            (final(self)@, action@) == old(self)@.after(event@),
    {
        match (self.phase, event) {
            (Phase::New, ExchangeEvent::Begin) => {
                self.phase = Phase::Starting;
                ExchangeAction::Start
            },
            (Phase::Starting, ExchangeEvent::StartFailed) => {
                self.phase = Phase::Done;
                ExchangeAction::Done
            },
            (Phase::Starting, ExchangeEvent::Started) => {
                let takes_edits = self.kind == ExchangeKind::RequestTakingEdits;
                self.phase = Phase::SendingInitialize;
                ExchangeAction::Send(
                    params::initialize_message(&self.root, takes_edits, &self.version),
                )
            },
            (Phase::SendingInitialize, ExchangeEvent::Sent) => {
                self.phase = Phase::AwaitingInitialize;
                ExchangeAction::Receive(Wait::Request)
            },
            (Phase::AwaitingInitialize, ExchangeEvent::Received(value)) => {
                if message_has_id(&value, 1) {
                    self.phase = Phase::SendingInitialized;
                    ExchangeAction::Send(params::initialized_message())
                } else {
                    ExchangeAction::Receive(Wait::Request)
                }
            },
            (Phase::SendingInitialized, ExchangeEvent::Sent) => {
                self.phase = Phase::SendingDidOpen;
                ExchangeAction::Send(
                    params::did_open_message(&self.path, &self.config.language_id, &self.text),
                )
            },
            (Phase::SendingDidOpen, ExchangeEvent::Sent) => {
                if self.kind == ExchangeKind::Diagnostics {
                    self.await_reply()
                } else {
                    self.phase = Phase::SendingRequest;
                    ExchangeAction::Send(
                        params::request_message(2, &self.method, self.params.copy()),
                    )
                }
            },
            (Phase::SendingRequest, ExchangeEvent::Sent) => self.await_reply(),
            (Phase::AwaitingReply, ExchangeEvent::Received(value)) => self.take_message(value),
            (Phase::AwaitingReply, ExchangeEvent::Silence) => self.end(),
            (Phase::Answering(_), ExchangeEvent::Sent) => self.await_reply(),
            (Phase::Answering(required), ExchangeEvent::SendFailed) => {
                if required {
                    self.end()
                } else {
                    self.await_reply()
                }
            },
            (Phase::SendingShutdown, ExchangeEvent::Sent) => {
                self.phase = Phase::AwaitingShutdown;
                ExchangeAction::Receive(Wait::Shutdown)
            },
            (Phase::SendingShutdown, ExchangeEvent::SendFailed) => {
                self.phase = Phase::AwaitingShutdown;
                ExchangeAction::Receive(Wait::Shutdown)
            },
            (Phase::AwaitingShutdown, ExchangeEvent::Received(value)) => {
                if message_has_id(&value, 3) {
                    self.phase = Phase::SendingExit;
                    ExchangeAction::Send(params::exit_message())
                } else {
                    ExchangeAction::Receive(Wait::Shutdown)
                }
            },
            (Phase::AwaitingShutdown, ExchangeEvent::Silence) => {
                self.phase = Phase::SendingExit;
                ExchangeAction::Send(params::exit_message())
            },
            (Phase::SendingExit, ExchangeEvent::Sent) => {
                self.phase = Phase::Closing;
                ExchangeAction::Finish
            },
            (Phase::SendingExit, ExchangeEvent::SendFailed) => {
                self.phase = Phase::Closing;
                ExchangeAction::Finish
            },
            (Phase::Closing, ExchangeEvent::Closed) => {
                self.phase = Phase::Done;
                ExchangeAction::Done
            },
            (Phase::Done, _) => ExchangeAction::Done,
            _ => self.abort(),
        }
    }
}

/// How far a phase is from the end of an exchange.
pub open spec fn distance(phase: Phase) -> nat {
    match phase {
        Phase::New => 13,
        Phase::Starting => 12,
        Phase::SendingInitialize => 11,
        Phase::AwaitingInitialize => 10,
        Phase::SendingInitialized => 9,
        Phase::SendingDidOpen => 8,
        Phase::SendingRequest => 7,
        Phase::Answering(_) => 6,
        Phase::AwaitingReply => 5,
        Phase::SendingShutdown => 4,
        Phase::AwaitingShutdown => 3,
        Phase::SendingExit => 2,
        Phase::Closing => 1,
        Phase::Done => 0,
    }
}

/// Every event but a received message brings an exchange nearer to its end, as
/// long as it closes the server when told to: no exchange hangs on a server
/// that fails or falls silent.
pub proof fn quiet_events_make_progress(exchange: ExchangeView, event: EventView)
    requires
        exchange.phase != Phase::Done,
        !(event is Received),
        exchange.phase == Phase::Closing ==> event is Closed,
    ensures
        distance(exchange.after(event).0.phase) < distance(exchange.phase),
{
}

/// An exchange is over only once its server has been closed, or where it never
/// started; and it waits for the server to be closed only after it has told to
/// close it.
pub proof fn server_is_closed_before_the_end(exchange: ExchangeView, event: EventView)
    requires
        exchange.phase != Phase::Done,
    ensures
        exchange.after(event).0.phase == Phase::Done ==> {
            ||| exchange.phase == Phase::Closing && event is Closed
            ||| exchange.phase == Phase::Starting && event is StartFailed
        },
        exchange.after(event).0.phase == Phase::Closing ==> {
            ||| exchange.after(event).1 is Kill
            ||| exchange.after(event).1 is Finish
        },
{
}

/// What an exchange is about never changes.
pub proof fn plan_is_kept(exchange: ExchangeView, event: EventView)
    ensures
        exchange.after(event).0.plan == exchange.plan,
{
}

/// A request of the server that is not served is answered with an error under
/// the server's own id, and changes nothing of what the exchange has gathered.
pub proof fn unserved_request_is_refused(exchange: ExchangeView, value: JsonView)
    requires
        exchange.phase == Phase::AwaitingReply,
        exchange.plan.kind == ExchangeKind::RequestTakingEdits,
        value.get("id"@) is Some,
        json::text_in(value.get("method"@)) is Some,
        json::text_in(value.get("method"@)) != Some("workspace/applyEdit"@),
    ensures
        ({
            let (next, action) = exchange.after(EventView::Received(value));
            &&& action == ActionView::Send(params::unsupported_answer(value.get("id"@)->0))
            &&& next == exchange.at(Phase::Answering(false))
            &&& next.after(EventView::Sent) == exchange.awaiting_reply()
            &&& next.after(EventView::SendFailed) == exchange.awaiting_reply()
        }),
{
}

/// A request of the server to apply an edit is told whether there was one, and
/// the exchange keeps exactly the edits of those that there were.
pub proof fn edit_request_is_answered(exchange: ExchangeView, value: JsonView)
    requires
        exchange.phase == Phase::AwaitingReply,
        exchange.plan.kind == ExchangeKind::RequestTakingEdits,
        json::text_in(value.get("method"@)) == Some("workspace/applyEdit"@),
        value.get("id"@) is Some,
    ensures
        ({
            let edit = parse::workspace_edit(
                json::member(value.get("params"@), "edit"@),
                exchange.plan.config.name,
                exchange.plan.platform,
            );
            let (next, action) = exchange.after(EventView::Received(value));
            &&& action == ActionView::Send(
                params::apply_edit_answer(value.get("id"@)->0, edit is Some),
            )
            &&& next.edits == match edit {
                Some(e) => exchange.edits + e.edits,
                None => exchange.edits,
            }
            &&& next.response == exchange.response
        }),
{
}

/// An exchange after a sequence of events, and all it asked for on the way.
pub open spec fn run(exchange: ExchangeView, events: Seq<EventView>) -> (ExchangeView, Seq<ActionView>)
    decreases events.len(),
{
    if events.len() == 0 {
        (exchange, Seq::empty())
    } else {
        let (before, actions) = run(exchange, events.drop_last());
        let (next, action) = before.after(events.last());
        (next, actions.push(action))
    }
}

proof fn lemma_run_step(
    start: ExchangeView,
    events: Seq<EventView>,
    actions: Seq<ActionView>,
    at: ExchangeView,
    event: EventView,
)
    requires
        run(start, events) == (at, actions),
    ensures
        run(start, events.push(event)) == (at.after(event).0, actions.push(at.after(event).1)),
{
    assert(events.push(event).drop_last() =~= events);
}

proof fn lemma_run_opens(
    start: ExchangeView,
    events: Seq<EventView>,
    actions: Seq<ActionView>,
    welcome: JsonView,
)
    requires
        run(start, events) == (start, actions),
        start.phase == Phase::New,
        start.plan.kind == ExchangeKind::Request,
        has_id(welcome, 1),
    ensures
        run(
            start,
            events.push(EventView::Begin).push(EventView::Started).push(EventView::Sent).push(
                EventView::Received(welcome),
            ),
        ) == (
            start.at(Phase::SendingInitialized),
            actions.push(ActionView::Start).push(
                ActionView::Send(
                    params::initialize(start.plan.root, false, start.plan.version),
                ),
            ).push(ActionView::Receive(Wait::Request)).push(
                ActionView::Send(params::initialized()),
            ),
        ),
{
    let e1 = events.push(EventView::Begin);
    let a1 = actions.push(ActionView::Start);
    let e2 = e1.push(EventView::Started);
    let a2 = a1.push(
        ActionView::Send(params::initialize(start.plan.root, false, start.plan.version)),
    );
    let e3 = e2.push(EventView::Sent);
    let a3 = a2.push(ActionView::Receive(Wait::Request));
    lemma_run_step(start, events, actions, start, EventView::Begin);
    lemma_run_step(start, e1, a1, start.at(Phase::Starting), EventView::Started);
    lemma_run_step(start, e2, a2, start.at(Phase::SendingInitialize), EventView::Sent);
    lemma_run_step(
        start,
        e3,
        a3,
        start.at(Phase::AwaitingInitialize),
        EventView::Received(welcome),
    );
}

proof fn lemma_run_asks(
    start: ExchangeView,
    events: Seq<EventView>,
    actions: Seq<ActionView>,
    reply: JsonView,
)
    requires
        run(start, events) == (start.at(Phase::SendingInitialized), actions),
        start.plan.kind == ExchangeKind::Request,
        has_id(reply, 2),
    ensures
        run(
            start,
            events.push(EventView::Sent).push(EventView::Sent).push(EventView::Sent).push(
                EventView::Received(reply),
            ),
        ) == (
            (ExchangeView { response: response_of(reply), ..start }).at(Phase::SendingShutdown),
            actions.push(
                ActionView::Send(
                    params::did_open(
                        start.plan.path,
                        start.plan.config.language_id,
                        start.plan.text,
                    ),
                ),
            ).push(
                ActionView::Send(params::request(2, start.plan.method, start.plan.params)),
            ).push(ActionView::Receive(Wait::Request)).push(
                ActionView::Send(params::shutdown()),
            ),
        ),
{
    let plan = start.plan;
    let e1 = events.push(EventView::Sent);
    let a1 = actions.push(
        ActionView::Send(params::did_open(plan.path, plan.config.language_id, plan.text)),
    );
    let e2 = e1.push(EventView::Sent);
    let a2 = a1.push(ActionView::Send(params::request(2, plan.method, plan.params)));
    let e3 = e2.push(EventView::Sent);
    let a3 = a2.push(ActionView::Receive(Wait::Request));
    lemma_run_step(start, events, actions, start.at(Phase::SendingInitialized), EventView::Sent);
    lemma_run_step(start, e1, a1, start.at(Phase::SendingDidOpen), EventView::Sent);
    lemma_run_step(start, e2, a2, start.at(Phase::SendingRequest), EventView::Sent);
    lemma_run_step(start, e3, a3, start.at(Phase::AwaitingReply), EventView::Received(reply));
}

proof fn lemma_run_closes(
    start: ExchangeView,
    events: Seq<EventView>,
    actions: Seq<ActionView>,
    at: ExchangeView,
    farewell: JsonView,
)
    requires
        run(start, events) == (at.at(Phase::SendingShutdown), actions),
        has_id(farewell, 3),
    ensures
        run(
            start,
            events.push(EventView::Sent).push(EventView::Received(farewell)).push(
                EventView::Sent,
            ).push(EventView::Closed),
        ) == (
            at.at(Phase::Done),
            actions.push(ActionView::Receive(Wait::Shutdown)).push(
                ActionView::Send(params::exit()),
            ).push(ActionView::Finish).push(ActionView::Done),
        ),
{
    let e1 = events.push(EventView::Sent);
    let a1 = actions.push(ActionView::Receive(Wait::Shutdown));
    let e2 = e1.push(EventView::Received(farewell));
    let a2 = a1.push(ActionView::Send(params::exit()));
    let e3 = e2.push(EventView::Sent);
    let a3 = a2.push(ActionView::Finish);
    lemma_run_step(start, events, actions, at.at(Phase::SendingShutdown), EventView::Sent);
    lemma_run_step(
        start,
        e1,
        a1,
        at.at(Phase::AwaitingShutdown),
        EventView::Received(farewell),
    );
    lemma_run_step(start, e2, a2, at.at(Phase::SendingExit), EventView::Sent);
    lemma_run_step(start, e3, a3, at.at(Phase::Closing), EventView::Closed);
}

pub open spec fn no_events() -> Seq<EventView> {
    Seq::empty()
}

pub open spec fn no_actions() -> Seq<ActionView> {
    Seq::empty()
}

/// Where all goes well, the server is sent, in this order: the initialisation,
/// the document, the request, the shutdown and the exit; and the exchange ends
/// with what the reply to the request brought.
pub proof fn request_exchange_goes_in_order(
    exchange: ExchangeView,
    welcome: JsonView,
    reply: JsonView,
    farewell: JsonView,
)
    requires
        exchange.phase == Phase::New,
        exchange.plan.kind == ExchangeKind::Request,
        has_id(welcome, 1),
        has_id(reply, 2),
        has_id(farewell, 3),
    ensures
        ({
            let plan = exchange.plan;
            let events = no_events().push(EventView::Begin).push(EventView::Started).push(
                EventView::Sent,
            ).push(EventView::Received(welcome)).push(EventView::Sent).push(EventView::Sent).push(
                EventView::Sent,
            ).push(EventView::Received(reply)).push(EventView::Sent).push(
                EventView::Received(farewell),
            ).push(EventView::Sent).push(EventView::Closed);
            let actions = no_actions().push(ActionView::Start).push(
                ActionView::Send(params::initialize(plan.root, false, plan.version)),
            ).push(ActionView::Receive(Wait::Request)).push(
                ActionView::Send(params::initialized()),
            ).push(
                ActionView::Send(
                    params::did_open(plan.path, plan.config.language_id, plan.text),
                ),
            ).push(ActionView::Send(params::request(2, plan.method, plan.params))).push(
                ActionView::Receive(Wait::Request),
            ).push(ActionView::Send(params::shutdown())).push(
                ActionView::Receive(Wait::Shutdown),
            ).push(ActionView::Send(params::exit())).push(ActionView::Finish).push(
                ActionView::Done,
            );
            run(exchange, events) == (
                ExchangeView { response: response_of(reply), phase: Phase::Done, ..exchange },
                actions,
            )
        }),
{
    let plan = exchange.plan;
    let e4 = no_events().push(EventView::Begin).push(EventView::Started).push(
        EventView::Sent,
    ).push(EventView::Received(welcome));
    let a4 = no_actions().push(ActionView::Start).push(
        ActionView::Send(params::initialize(plan.root, false, plan.version)),
    ).push(ActionView::Receive(Wait::Request)).push(ActionView::Send(params::initialized()));
    let e8 = e4.push(EventView::Sent).push(EventView::Sent).push(EventView::Sent).push(
        EventView::Received(reply),
    );
    let a8 = a4.push(
        ActionView::Send(params::did_open(plan.path, plan.config.language_id, plan.text)),
    ).push(ActionView::Send(params::request(2, plan.method, plan.params))).push(
        ActionView::Receive(Wait::Request),
    ).push(ActionView::Send(params::shutdown()));
    let answered = ExchangeView { response: response_of(reply), ..exchange };
    lemma_run_opens(exchange, no_events(), no_actions(), welcome);
    lemma_run_asks(exchange, e4, a4, reply);
    lemma_run_closes(exchange, e8, a8, answered, farewell);
}

proof fn lemma_picked_len(
    items: Seq<JsonView>,
    path: Seq<char>,
    a: lsp::KnownView,
    b: lsp::KnownView,
    server: Seq<char>,
)
    ensures
        json::picked(items, parse::diagnosing(path, a, server)).len() == json::picked(
            items,
            parse::diagnosing(path, b, server),
        ).len(),
    decreases items.len(),
{
    if items.len() > 0 {
        lemma_picked_len(items.drop_last(), path, a, b, server);
    }
}

/// How many diagnostics a message publishes does not depend on which files are
/// at hand: an exchange that stops at the first message that publishes any
/// never stops at one that in the end publishes none.
pub proof fn published_count_needs_no_files(
    value: JsonView,
    known: lsp::KnownView,
    server: Seq<char>,
)
    requires
        parse::published(value, known.platform) is Some,
    ensures
        publishes_some(value, server, known.platform) <==> parse::publish_diagnostics(
            value,
            known,
            server,
        )->0.len() > 0,
{
    let (path, items) = parse::published(value, known.platform)->0;
    lemma_picked_len(items, path, nothing_known(known.platform), known, server);
}

} // verus!
