//! How an application is run: the steps of a run, the events in it, and what its
//! configuration says.
use vstd::prelude::*;

use crate::config::Config;
use crate::docker::options::RunOptions;
use crate::api::reply::doubled;
use crate::error::{is_other, DooverError};
use crate::events::{
    Event, EventSubscription, AGGREGATE_UPDATE, CHANNEL_SYNC, MESSAGE_CREATE, MESSAGE_UPDATE,
    ONE_SHOT_MESSAGE,
};
use crate::json::{
    empty_obj, entries_of, field, field2, insert, opt_doc, put, str_field, Entries, Json, Value,
};
use crate::text::{chars, concat};

verus! {

/// The channel of the deployment configuration.
pub const DEPLOYMENT_CONFIG: &'static str = "deployment_config";

/// The channel of the tags.
pub const TAG_VALUES: &'static str = "tag_values";

/// The channel of the user interface.
pub const UI_STATE: &'static str = "ui_state";

/// The channel of user commands.
pub const UI_CMDS: &'static str = "ui_cmds";

/// The channel that says who is watching.
pub const UI_SUB: &'static str = "dv-ui-sub";

/// The channel of remote calls.
pub const RPC: &'static str = "dv-rpc";

/// The channel of notifications.
pub const NOTIFICATIONS: &'static str = "notifications";

/// The events that remote calls need: messages, whether kept or not.
pub fn rpc_events() -> (r: EventSubscription)
    ensures
        r == (EventSubscription { bits: 11 }),
        r.covers(EventSubscription::message_create()),
        r.covers(EventSubscription::message_update()),
        r.covers(EventSubscription::oneshot_message()),
        !r.covers(EventSubscription::aggregate_update()),
        !r.covers(EventSubscription::channel_sync()),
{
    let r = EventSubscription { bits: 11 };
    assert(11u8 & 1 == 1 && 11u8 & 2 == 2 && 11u8 & 8 == 8 && 11u8 & 4 != 4 && 11u8 & 16 != 16)
        by (bit_vector);
    r
}

/// The events that user commands need: new messages and the state of the channel.
pub fn command_events() -> (r: EventSubscription)
    ensures
        r == (EventSubscription { bits: 29 }),
        r.covers(EventSubscription::message_create()),
        r.covers(EventSubscription::oneshot_message()),
        r.covers(EventSubscription::aggregate_update()),
        r.covers(EventSubscription::channel_sync()),
        !r.covers(EventSubscription::message_update()),
{
    let r = EventSubscription { bits: 29 };
    assert(29u8 & 1 == 1 && 29u8 & 8 == 8 && 29u8 & 4 == 4 && 29u8 & 16 == 16 && 29u8 & 2 != 2)
        by (bit_vector);
    r
}

// ---- the configuration ---------------------------------------------------------------------

/// What the deployment configuration says of the application itself.
#[derive(Debug)]
pub struct AppMeta {
    pub agent_id: Option<Value>,
    pub app_display_name: String,
}

/// The part of a deployment configuration that is for one application; empty if
/// there is none.
pub open spec fn config_for(full: Json, app_key: Seq<char>) -> Json {
    match field2(full, "applications"@, app_key) {
        Some(c) => c,
        None => empty_obj(),
    }
}

/// The display name in an application's configuration; empty if there is none.
pub open spec fn display_name(config: Json) -> Seq<char> {
    match str_field(config, "APP_DISPLAY_NAME"@) {
        Some(n) => n,
        None => Seq::empty(),
    }
}

/// What an application knows of itself while it runs.
#[derive(Debug)]
pub struct AppContext {
    app_key: String,
    config: Config,
    meta: AppMeta,
}

/// The model of the context.
#[verifier::ext_equal]
pub struct ContextView {
    pub app_key: Seq<char>,
    pub config: Json,
    pub agent_id: Option<Json>,
    pub app_display_name: Seq<char>,
}

impl View for AppContext {
    type V = ContextView;

    closed spec fn view(&self) -> ContextView {
        ContextView {
            app_key: self.app_key@,
            config: self.config@,
            agent_id: opt_doc(self.meta.agent_id),
            app_display_name: self.meta.app_display_name@,
        }
    }
}

/// The context once a deployment configuration has come in.
pub open spec fn after_deployment(v: ContextView, full: Json) -> ContextView {
    let config = config_for(full, v.app_key);
    ContextView {
        config,
        agent_id: field(config, "AGENT_ID"@),
        app_display_name: display_name(config),
        ..v
    }
}

/// The entries of a list of tags; a later one with the same name wins.
pub open spec fn tag_entries(tags: Seq<(String, Value)>) -> Entries
    decreases tags.len(),
{
    if tags.len() == 0 {
        Seq::empty()
    } else {
        put(tag_entries(tags.drop_last()), tags.last().0@, tags.last().1@)
    }
}

/// The document that sets tags of an application; an application without a key
/// sets them at the root.
pub open spec fn tags_doc(app_key: Seq<char>, tags: Seq<(String, Value)>) -> Json {
    if app_key.len() == 0 {
        Json::Obj(tag_entries(tags))
    } else {
        Json::Obj(seq![(app_key, Json::Obj(tag_entries(tags)))])
    }
}

impl AppContext {
    /// The context of an application without a configuration.
    pub fn new(app_key: &str) -> (c: Self)
        ensures
            c@ == (ContextView {
                app_key: app_key@,
                config: Json::Null,
                agent_id: None,
                app_display_name: Seq::empty(),
            }),
    {
        let c = AppContext {
            app_key: app_key.to_owned(),
            config: Config::default(),
            meta: AppMeta { agent_id: None, app_display_name: String::new() },
        };
        assert(c.meta.app_display_name@ =~= Seq::empty());
        c
    }

    /// The key of the application.
    pub fn app_key(&self) -> (r: &str)
        ensures
            r@ == self@.app_key,
    {
        self.app_key.as_str()
    }

    /// The configuration.
    pub fn config(&self) -> (r: &Config)
        ensures
            r@ == self@.config,
    {
        &self.config
    }

    /// The id of the agent, if it is known.
    pub fn agent_id(&self) -> (r: Option<Value>)
        ensures
            opt_doc(r) == self@.agent_id,
    {
        match &self.meta.agent_id {
            Some(v) => Some(v.clone()),
            None => None,
        }
    }

    /// The display name of the application; empty if it is not known.
    pub fn app_display_name(&self) -> (r: &str)
        ensures
            r@ == self@.app_display_name,
    {
        self.meta.app_display_name.as_str()
    }

    /// Gives the application a configuration that was read from a file.
    pub fn set_config(&mut self, config: Config)
        ensures
            final(self)@ == (ContextView { config: config@, ..old(self)@ }),
    {
        self.config = config;
    }

    /// Takes in a deployment configuration.
    pub fn apply_deployment_config(&mut self, full_aggregate: &Value)
        ensures
            final(self)@ == after_deployment(old(self)@, full_aggregate@),
    {
        let app_config = match full_aggregate.get2("applications", self.app_key.as_str()) {
            Some(c) => c.clone(),
            None => Value::empty_object(),
        };
        self.meta.agent_id = match app_config.get("AGENT_ID") {
            Some(v) => Some(v.clone()),
            None => None,
        };
        self.meta.app_display_name = match app_config.get_string("APP_DISPLAY_NAME") {
            Some(n) => n,
            None => {
                let empty = String::new();
                assert(empty@ =~= Seq::empty());
                empty
            },
        };
        self.config = Config::from_value(app_config);
    }

    /// The document that sets several tags of this application at once.
    pub fn set_tags(&self, tags: &Vec<(String, Value)>) -> (v: Value)
        ensures
            v@ == tags_doc(self@.app_key, tags@),
    {
        let mut inner: Vec<(String, Value)> = Vec::new();
        let mut i: usize = 0;
        assert(tags@.take(0) =~= Seq::empty());
        assert(entries_of(inner@) =~= Seq::empty());
        while i < tags.len()
            invariant
                i <= tags@.len(),
                entries_of(inner@) == tag_entries(tags@.take(i as int)),
            decreases tags@.len() - i,
        {
            proof {
                assert(tags@.take(i as int + 1).drop_last() =~= tags@.take(i as int));
                assert(tags@.take(i as int + 1).last() == tags@[i as int]);
            }
            insert(&mut inner, tags[i].0.as_str(), tags[i].1.clone());
            i += 1;
        }
        assert(tags@.take(tags@.len() as int) =~= tags@);
        let inner = Value::object(inner);
        if chars(self.app_key.as_str()).len() == 0 {
            return inner;
        }
        let mut outer: Vec<(String, Value)> = Vec::new();
        outer.push((self.app_key.clone(), inner));
        assert(entries_of(outer@) =~= seq![(self.app_key@, inner@)]);
        Value::object(outer)
    }
}

/// Where the configuration of an application comes from.
#[derive(Debug)]
pub enum ConfigSource {
    /// A file.
    File(String),
    /// The channel of the deployment configuration.
    Channel,
    /// Nowhere: the application has no key.
    Nothing,
}

/// Where the configuration of an application comes from: a file if one is named,
/// otherwise the channel if the application has a key.
pub fn config_source(opts: &RunOptions) -> (s: ConfigSource)
    ensures
        match opts.config_fp {
            Some(fp) => s matches ConfigSource::File(f) && f@ == fp@,
            None => if opts.app_key@.len() > 0 {
                s is Channel
            } else {
                s is Nothing
            },
        },
{
    match &opts.config_fp {
        Some(fp) => ConfigSource::File(fp.clone()),
        None => {
            if chars(opts.app_key.as_str()).len() > 0 {
                ConfigSource::Channel
            } else {
                ConfigSource::Nothing
            }
        },
    }
}

// ---- connecting ----------------------------------------------------------------------------

/// How long it is tried to reach the device agent, in milliseconds.
pub const CONNECT_DEADLINE_MS: u64 = 300_000;

/// The longest pause between two tries, in milliseconds.
pub const MAX_CONNECT_PAUSE_MS: u64 = 5_000;

/// The pause after a number of failed tries, in milliseconds: it doubles with each
/// of the first five and has a limit.
pub open spec fn connect_pause(tries: nat) -> nat {
    let p = doubled(
        200,
        if tries < 5 {
            tries
        } else {
            5
        },
    );
    if p < MAX_CONNECT_PAUSE_MS as nat {
        p
    } else {
        MAX_CONNECT_PAUSE_MS as nat
    }
}

/// What follows a failed try to reach the device agent.
#[derive(Debug)]
pub enum ConnectStep {
    /// Another try after a pause, in milliseconds.
    Wait(u64),
    GiveUp(DooverError),
}

/// What follows a failed try. `tries` counts this one.
pub fn after_failed_connect(elapsed_ms: u64, tries: u32) -> (s: ConnectStep)
    ensures
        match s {
            ConnectStep::Wait(ms) => elapsed_ms < CONNECT_DEADLINE_MS && ms == connect_pause(
                tries as nat,
            ),
            ConnectStep::GiveUp(e) => elapsed_ms >= CONNECT_DEADLINE_MS && is_other(
                e,
                "device agent did not become healthy within 300s"@,
            ),
        },
{
    if elapsed_ms >= CONNECT_DEADLINE_MS {
        return ConnectStep::GiveUp(
            DooverError::Other("device agent did not become healthy within 300s".to_owned()),
        );
    }
    proof {
        reveal_with_fuel(doubled, 6);
    }
    let ms: u64 = if tries == 0 {
        200
    } else if tries == 1 {
        400
    } else if tries == 2 {
        800
    } else if tries == 3 {
        1_600
    } else if tries == 4 {
        3_200
    } else {
        5_000
    };
    ConnectStep::Wait(ms)
}

/// Pauses never get shorter from try to try and never exceed the limit.
pub proof fn law_pauses_grow(tries: nat)
    ensures
        connect_pause(tries) <= connect_pause(tries + 1) <= MAX_CONNECT_PAUSE_MS,
{
    reveal_with_fuel(doubled, 6);
}

// ---- a run ---------------------------------------------------------------------------------

/// The steps of a run.
#[derive(Debug, Clone, Copy, PartialEq, Eq, Structural)]
pub enum RunPhase {
    /// The healthcheck endpoint is being started.
    Healthcheck,
    /// The device agent is being reached.
    Connecting,
    /// The configuration is being fetched.
    Configuring,
    /// The configuration is being loaded.
    Loading,
    /// Tags, user interface and application are being put together.
    Preparing,
    /// The application sets itself up.
    SettingUp,
    /// The user interface is being published.
    Publishing,
    /// The next tick, event or signal is awaited.
    Idle,
    /// An event is being handled.
    Handling,
    /// The application's loop function runs.
    Looping,
    /// The tags are being committed.
    Committing,
    /// The user interface is being published again, if it changed.
    Republishing,
    /// The pause before a failed application ends.
    Failing,
    /// The application is told of the end.
    ShuttingDown,
    /// The run is over.
    Ended,
}

/// What happened in a run.
#[derive(Debug)]
pub enum RunInput {
    /// The step is done.
    Done,
    /// The step failed.
    Failed(DooverError),
    /// The signal to stop came.
    Stop,
    /// An event came.
    Event,
    /// It is time for the next loop.
    Tick,
}

/// A run.
#[derive(Debug)]
pub struct RunState {
    pub phase: RunPhase,
    /// What the healthcheck endpoint answers.
    pub healthy: bool,
    /// What the run failed with.
    pub failure: Option<DooverError>,
}

/// Whether a failure of the step ends the run at once.
pub open spec fn is_fatal(p: RunPhase) -> bool {
    p == RunPhase::Connecting || p == RunPhase::Configuring || p == RunPhase::Loading
}

/// Whether a failure of the step ends the run after a pause.
pub open spec fn fails_slowly(p: RunPhase) -> bool {
    p == RunPhase::SettingUp || p == RunPhase::Looping || p == RunPhase::Committing
}

/// The step that follows when one is done.
pub open spec fn following(p: RunPhase) -> RunPhase {
    match p {
        RunPhase::Healthcheck => RunPhase::Connecting,
        RunPhase::Connecting => RunPhase::Configuring,
        RunPhase::Configuring => RunPhase::Loading,
        RunPhase::Loading => RunPhase::Preparing,
        RunPhase::Preparing => RunPhase::SettingUp,
        RunPhase::SettingUp => RunPhase::Publishing,
        RunPhase::Publishing => RunPhase::Idle,
        RunPhase::Idle => RunPhase::Idle,
        RunPhase::Handling => RunPhase::Idle,
        RunPhase::Looping => RunPhase::Committing,
        RunPhase::Committing => RunPhase::Republishing,
        RunPhase::Republishing => RunPhase::Idle,
        RunPhase::Failing => RunPhase::Ended,
        RunPhase::ShuttingDown => RunPhase::Ended,
        RunPhase::Ended => RunPhase::Ended,
    }
}

/// The run after something happened. Failures of the steps that are neither fatal
/// nor slow count as done.
pub open spec fn run_next(s: RunState, input: RunInput) -> RunState {
    match input {
        RunInput::Stop => if s.phase == RunPhase::Idle {
            RunState { phase: RunPhase::ShuttingDown, ..s }
        } else {
            s
        },
        RunInput::Event => if s.phase == RunPhase::Idle {
            RunState { phase: RunPhase::Handling, ..s }
        } else {
            s
        },
        RunInput::Tick => if s.phase == RunPhase::Idle {
            RunState { phase: RunPhase::Looping, ..s }
        } else {
            s
        },
        RunInput::Failed(e) => if is_fatal(s.phase) {
            RunState { phase: RunPhase::Ended, failure: Some(e), ..s }
        } else if fails_slowly(s.phase) {
            RunState {
                phase: RunPhase::Failing,
                healthy: s.phase == RunPhase::SettingUp && s.healthy,
                failure: Some(e),
            }
        } else {
            RunState {
                phase: following(s.phase),
                healthy: s.healthy || s.phase == RunPhase::Republishing,
                ..s
            }
        },
        RunInput::Done => RunState {
            phase: following(s.phase),
            healthy: s.healthy || s.phase == RunPhase::Republishing,
            ..s
        },
    }
}

fn follow(p: RunPhase) -> (r: RunPhase)
    ensures
        r == following(p),
{
    match p {
        RunPhase::Healthcheck => RunPhase::Connecting,
        RunPhase::Connecting => RunPhase::Configuring,
        RunPhase::Configuring => RunPhase::Loading,
        RunPhase::Loading => RunPhase::Preparing,
        RunPhase::Preparing => RunPhase::SettingUp,
        RunPhase::SettingUp => RunPhase::Publishing,
        RunPhase::Publishing => RunPhase::Idle,
        RunPhase::Idle => RunPhase::Idle,
        RunPhase::Handling => RunPhase::Idle,
        RunPhase::Looping => RunPhase::Committing,
        RunPhase::Committing => RunPhase::Republishing,
        RunPhase::Republishing => RunPhase::Idle,
        RunPhase::Failing => RunPhase::Ended,
        RunPhase::ShuttingDown => RunPhase::Ended,
        RunPhase::Ended => RunPhase::Ended,
    }
}

impl RunState {
    /// A run at its start: the application is not healthy yet.
    pub fn new() -> (s: RunState)
        ensures
            s == (RunState { phase: RunPhase::Healthcheck, healthy: false, failure: None }),
    {
        RunState { phase: RunPhase::Healthcheck, healthy: false, failure: None }
    }

    /// Takes in what happened.
    pub fn run_with(self, input: RunInput) -> (s: RunState)
        ensures
            s == run_next(self, input),
    {
        let phase = self.phase;
        match input {
            RunInput::Stop => {
                if phase == RunPhase::Idle {
                    RunState { phase: RunPhase::ShuttingDown, ..self }
                } else {
                    self
                }
            },
            RunInput::Event => {
                if phase == RunPhase::Idle {
                    RunState { phase: RunPhase::Handling, ..self }
                } else {
                    self
                }
            },
            RunInput::Tick => {
                if phase == RunPhase::Idle {
                    RunState { phase: RunPhase::Looping, ..self }
                } else {
                    self
                }
            },
            RunInput::Failed(e) => match phase {
                RunPhase::Connecting | RunPhase::Configuring | RunPhase::Loading => RunState {
                    phase: RunPhase::Ended,
                    healthy: self.healthy,
                    failure: Some(e),
                },
                RunPhase::SettingUp => RunState {
                    phase: RunPhase::Failing,
                    healthy: self.healthy,
                    failure: Some(e),
                },
                RunPhase::Looping | RunPhase::Committing => RunState {
                    phase: RunPhase::Failing,
                    healthy: false,
                    failure: Some(e),
                },
                _ => RunState {
                    phase: follow(phase),
                    healthy: self.healthy || phase == RunPhase::Republishing,
                    ..self
                },
            },
            RunInput::Done => RunState {
                phase: follow(phase),
                healthy: self.healthy || phase == RunPhase::Republishing,
                ..self
            },
        }
    }
}

/// An application is healthy from the end of its first good loop on, until a loop
/// or a commit fails. Nothing else changes it.
pub proof fn law_health_follows_the_loop(s: RunState, input: RunInput)
    ensures
        run_next(s, input).healthy && !s.healthy ==> s.phase == RunPhase::Republishing,
        s.healthy && !run_next(s, input).healthy ==> input is Failed && fails_slowly(s.phase),
        input is Failed && (s.phase == RunPhase::Looping || s.phase == RunPhase::Committing)
            ==> !run_next(s, input).healthy,
{
}

/// A failed loop ends the run with its error, after the pause.
pub proof fn law_failures_end_the_run(s: RunState, e: DooverError)
    requires
        fails_slowly(s.phase),
    ensures
        run_next(run_next(s, RunInput::Failed(e)), RunInput::Done).phase == RunPhase::Ended,
        run_next(run_next(s, RunInput::Failed(e)), RunInput::Done).failure == Some(e),
{
}

/// Events, whether they are handled well or not, leave the application where it was.
pub proof fn law_events_do_not_end_the_run(s: RunState, e: DooverError)
    requires
        s.phase == RunPhase::Idle,
    ensures
        run_next(run_next(s, RunInput::Event), RunInput::Done) == s,
        run_next(run_next(s, RunInput::Event), RunInput::Failed(e)) == s,
{
}

/// A run that is over stays over, with the outcome that it had; and a stop signal
/// ends it without one.
pub proof fn law_the_end_is_final(s: RunState, input: RunInput)
    ensures
        s.phase == RunPhase::Ended ==> run_next(s, input) == s,
        s.phase == RunPhase::Idle ==> run_next(
            run_next(s, RunInput::Stop),
            RunInput::Done,
        ) == (RunState { phase: RunPhase::Ended, ..s }),
{
}

// ---- events --------------------------------------------------------------------------------

/// A user command: the interaction that it is for, and its value.
#[derive(Debug)]
pub struct UiCommand {
    pub name: String,
    pub value: Value,
}

/// An event that reaches the application.
#[derive(Debug)]
pub enum RunnerEvent {
    /// From a channel that the application subscribed to.
    App(Event),
    /// From the channel of the deployment configuration.
    ConfigUpdate(Event),
    /// A user command.
    Command(UiCommand),
}

/// The callbacks of an application.
#[derive(Debug, Clone, Copy, PartialEq, Eq, Structural)]
pub enum Callback {
    MessageCreate,
    MessageUpdate,
    AggregateUpdate,
    OneshotMessage,
    ChannelSync,
}

/// The callback for an event with a name.
pub open spec fn callback_for(name: Seq<char>) -> Option<Callback> {
    if name == MESSAGE_CREATE@ {
        Some(Callback::MessageCreate)
    } else if name == MESSAGE_UPDATE@ {
        Some(Callback::MessageUpdate)
    } else if name == AGGREGATE_UPDATE@ {
        Some(Callback::AggregateUpdate)
    } else if name == ONE_SHOT_MESSAGE@ {
        Some(Callback::OneshotMessage)
    } else if name == CHANNEL_SYNC@ {
        Some(Callback::ChannelSync)
    } else {
        None
    }
}

/// What is to be done about an event.
#[derive(Debug)]
pub enum RunnerAction {
    Nothing,
    /// The configuration is a new one: load it, and tell the application.
    Reload,
    /// Hand the command to the application.
    Command(UiCommand),
    /// Call the application.
    Call(Callback, Event),
}

/// Whether an action is the one for an event.
pub open spec fn is_action_for(a: RunnerAction, event: RunnerEvent) -> bool {
    match event {
        RunnerEvent::ConfigUpdate(e) => if field2(e.payload@, "aggregate"@, "data"@) is Some {
            a is Reload
        } else {
            a is Nothing
        },
        RunnerEvent::Command(c) => a == RunnerAction::Command(c),
        RunnerEvent::App(e) => match callback_for(e.event_name@) {
            Some(cb) => a == RunnerAction::Call(cb, e),
            None => a is Nothing,
        },
    }
}

/// The context after an event: only a configuration update changes it.
pub open spec fn after_event(v: ContextView, event: RunnerEvent) -> ContextView {
    match event {
        RunnerEvent::ConfigUpdate(e) => match field2(e.payload@, "aggregate"@, "data"@) {
            Some(data) => after_deployment(v, data),
            None => v,
        },
        _ => v,
    }
}

fn route(event: &Event) -> (r: Option<Callback>)
    ensures
        r == callback_for(event.event_name@),
{
    if event.is_message_create() {
        Some(Callback::MessageCreate)
    } else if event.is_message_update() {
        Some(Callback::MessageUpdate)
    } else if event.is_aggregate_update() {
        Some(Callback::AggregateUpdate)
    } else if event.is_one_shot() {
        Some(Callback::OneshotMessage)
    } else if event.is_channel_sync() {
        Some(Callback::ChannelSync)
    } else {
        None
    }
}

/// Takes in an event.
pub fn handle_runner_event(ctx: &mut AppContext, event: RunnerEvent) -> (a: RunnerAction)
    ensures
        final(ctx)@ == after_event(old(ctx)@, event),
        is_action_for(a, event),
{
    match event {
        RunnerEvent::ConfigUpdate(e) => match e.aggregate_data() {
            Some(data) => {
                ctx.apply_deployment_config(data);
                RunnerAction::Reload
            },
            None => RunnerAction::Nothing,
        },
        RunnerEvent::Command(c) => RunnerAction::Command(c),
        RunnerEvent::App(e) => match route(&e) {
            Some(cb) => RunnerAction::Call(cb, e),
            None => RunnerAction::Nothing,
        },
    }
}

/// A value to be written to the user interface.
#[derive(Debug)]
pub struct UiWrite {
    pub name: String,
    pub value: Value,
    /// Log a message too.
    pub log: bool,
}

/// What a user command is answered.
#[derive(Debug)]
pub enum CommandAnswer {
    /// The command succeeded.
    Success { name: String },
    /// The command failed.
    Error { name: String, code: String, message: String },
}

/// What follows a user command.
#[derive(Debug)]
pub enum CommandFollowUp {
    /// Write the value back. The answer comes after that.
    WriteBack(UiWrite),
    /// Answer at once. Nothing is written back.
    Answer(CommandAnswer),
}

/// Whether a write is the one for an accepted command: its value under its name, with
/// a log message.
pub open spec fn writes_back(w: UiWrite, cmd: UiCommand) -> bool {
    w.name@ == cmd.name@ && w.value@ == cmd.value@ && w.log
}

/// Whether an answer says that a command succeeded.
pub open spec fn says_success(a: CommandAnswer, cmd: UiCommand) -> bool {
    a matches CommandAnswer::Success { name } && name@ == cmd.name@
}

/// Whether an answer says that a command failed with an error.
pub open spec fn says_error(a: CommandAnswer, cmd: UiCommand, e: DooverError) -> bool {
    a matches CommandAnswer::Error { name, code, message } && name@ == cmd.name@ && code@
        == "INTERNAL_ERROR"@ && message@ == e.text()
}

/// Whether something is what follows a command.
pub open spec fn is_follow_up(
    f: CommandFollowUp,
    cmd: UiCommand,
    result: Result<(), DooverError>,
) -> bool {
    match result {
        Ok(_) => f matches CommandFollowUp::WriteBack(w) && writes_back(w, cmd),
        Err(e) => f matches CommandFollowUp::Answer(a) && says_error(a, cmd, e),
    }
}

/// What follows a user command: its value is written back exactly if the application
/// accepted it.
pub fn after_command(cmd: &UiCommand, result: &Result<(), DooverError>) -> (f: CommandFollowUp)
    ensures
        is_follow_up(f, *cmd, *result),
{
    match result {
        Ok(()) => CommandFollowUp::WriteBack(
            UiWrite { name: cmd.name.clone(), value: cmd.value.clone(), log: true },
        ),
        Err(e) => CommandFollowUp::Answer(
            CommandAnswer::Error {
                name: cmd.name.clone(),
                code: "INTERNAL_ERROR".to_owned(),
                message: e.message(),
            },
        ),
    }
}

/// What an accepted command is answered once its value was to be written back. That
/// the write failed changes nothing.
pub fn after_write_back(cmd: &UiCommand, _written: &Result<(), DooverError>) -> (a: CommandAnswer)
    ensures
        says_success(a, *cmd),
{
    CommandAnswer::Success { name: cmd.name.clone() }
}

/// Every command gets one answer, and the application decides which: success exactly
/// if it accepted the command, whatever became of the write.
pub proof fn law_commands_are_answered(
    cmd: UiCommand,
    result: Result<(), DooverError>,
    f: CommandFollowUp,
    after: CommandAnswer,
)
    requires
        is_follow_up(f, cmd, result),
        says_success(after, cmd),
    ensures
        ({
            let answer = match f {
                CommandFollowUp::WriteBack(_) => after,
                CommandFollowUp::Answer(a) => a,
            };
            match result {
                Ok(_) => says_success(answer, cmd),
                Err(e) => says_error(answer, cmd, e),
            }
        }),
        f is WriteBack <==> result is Ok,
{
}

/// What is logged if a callback fails.
pub fn callback_failure(event_name: &str, channel: &str, e: &DooverError) -> (m: String)
    ensures
        m@ == "error in "@ + event_name@ + " handler for channel '"@ + channel@ + "': "@ + e.text(),
{
    let mut m = concat("error in ", event_name);
    m.append(" handler for channel '");
    m.append(channel);
    m.append("': ");
    m.append(e.message().as_str());
    m
}

} // verus!
