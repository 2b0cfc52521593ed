//! The bot itself: what it listens to at the gateway and what it does with each event.
use twilight_gateway::EventTypeFlags;
use twilight_model::gateway::Intents;
use vstd::prelude::*;
use crate::text::{nat_text, u64_text};

verus! {

/// twilight's `Intents::GUILD_MESSAGES` as bits: bit 9, as the crate's source defines it.
#[verifier::external_body]
fn guild_messages_intent() -> (bits: u64)
    ensures
        bits == 0x200,
{
    Intents::GUILD_MESSAGES.bits()
}

/// twilight's `Intents::DIRECT_MESSAGES` as bits: bit 12, as the crate's source defines it.
#[verifier::external_body]
fn direct_messages_intent() -> (bits: u64)
    ensures
        bits == 0x1000,
{
    Intents::DIRECT_MESSAGES.bits()
}

/// twilight's `EventTypeFlags::MESSAGE_CREATE` as bits: bit 19, as the crate's source
/// defines it.
#[verifier::external_body]
fn message_create_flag() -> (bits: u64)
    ensures
        bits == 0x8_0000,
{
    EventTypeFlags::MESSAGE_CREATE.bits()
}

/// twilight's `EventTypeFlags::READY` as bits: bit 28, as the crate's source defines it.
#[verifier::external_body]
fn ready_flag() -> (bits: u64)
    ensures
        bits == 0x1000_0000,
{
    EventTypeFlags::READY.bits()
}

/// twilight's `EventTypeFlags::INTERACTION_CREATE` as bits: bit 56, as the crate's source
/// defines it.
#[verifier::external_body]
fn interaction_create_flag() -> (bits: u64)
    ensures
        bits == 0x0100_0000_0000_0000,
{
    EventTypeFlags::INTERACTION_CREATE.bits()
}

/// What the bot needs to run: the log filter, the Discord token and the database.
#[derive(Debug)]
pub struct Config {
    /// A log filter, such as `info` or `info,trashy_bot=debug`.
    pub log_level: String,
    /// The Discord bot token.
    pub discord_token: String,
    /// The database address.
    pub db_url: String,
    /// The most connections to the database at once.
    pub db_pool_max_size: u32,
}

/// The bot.
pub struct TrashyBot;

/// The gateway intents of the bot: guild messages and direct messages.
pub open spec fn bot_intents() -> u64 {
    0x1200
}

/// The events the bot receives: message creation, ready and interaction creation.
pub open spec fn bot_event_types() -> u64 {
    0x0100_0000_1008_0000
}

impl TrashyBot {
    /// The gateway intents the bot connects with (see `bot_intents`).
    pub fn intents() -> (bits: u64)
        ensures
            bits == bot_intents(),
    {
        let g = guild_messages_intent();
        let d = direct_messages_intent();
        assert(g | d == 0x1200u64) by (bit_vector)
            requires
                g == 0x200u64,
                d == 0x1000u64;
        g | d
    }

    /// The event types the bot receives (see `bot_event_types`).
    pub fn event_types() -> (bits: u64)
        ensures
            bits == bot_event_types(),
    {
        let m = message_create_flag();
        let r = ready_flag();
        let i = interaction_create_flag();
        assert(m | r | i == 0x0100_0000_1008_0000u64) by (bit_vector)
            requires
                m == 0x8_0000u64,
                r == 0x1000_0000u64,
                i == 0x0100_0000_0000_0000u64;
        m | r | i
    }

    /// The seed of the bot's random numbers.
    pub fn rng_seed() -> (seed: u64)
        ensures
            seed == 41237102,
    {
        41237102
    }
}

/// An interaction as far as the bot tells them apart.
#[derive(Debug)]
pub enum InteractionKind {
    /// Discord checks that the bot answers.
    Ping,
    /// An application command, by its name.
    Command(String),
    /// A message component was used.
    Component,
    /// Any other interaction.
    Other,
}

/// The command handlers that interactions are dispatched to.
#[derive(Clone, Copy, Debug, PartialEq, Eq, Structural)]
pub enum CommandHandler {
    Roll,
    Choose,
    Sponge,
    Remindme,
}

/// What is done with an interaction.
#[derive(Debug)]
pub enum InteractionAction {
    /// Answer the ping with a pong.
    Pong,
    /// Run the command's handler.
    Run(CommandHandler),
    /// Fail: the command is not known (logged as unknown).
    UnknownCommand(String),
    /// Do nothing: message components are not supported (logged at debug level).
    ComponentNotSupported,
    /// Fail: the kind of interaction is not known.
    UnknownInteraction,
}

/// The handler for a command name: `roll`, `choose`, `sponge` and `remindme` have one.
pub open spec fn handler_of(name: Seq<char>) -> Option<CommandHandler> {
    if name == "roll"@ {
        Some(CommandHandler::Roll)
    } else if name == "choose"@ {
        Some(CommandHandler::Choose)
    } else if name == "sponge"@ {
        Some(CommandHandler::Sponge)
    } else if name == "remindme"@ {
        Some(CommandHandler::Remindme)
    } else {
        None
    }
}

/// What is done with an interaction, as plain values: 0 pong, 1 run a handler, 2 unknown
/// command (with its name), 3 component, 4 unknown interaction.
pub open spec fn interaction_action_view(a: InteractionAction) -> (u8, Option<CommandHandler>, Seq<char>) {
    match a {
        InteractionAction::Pong => (0u8, None, Seq::empty()),
        InteractionAction::Run(h) => (1u8, Some(h), Seq::empty()),
        InteractionAction::UnknownCommand(n) => (2u8, None, n@),
        InteractionAction::ComponentNotSupported => (3u8, None, Seq::empty()),
        InteractionAction::UnknownInteraction => (4u8, None, Seq::empty()),
    }
}

/// The action for an interaction: a ping is answered, a command goes to its handler (an
/// unknown name fails with that name), a component is ignored, anything else fails.
pub open spec fn interaction_action_of(k: InteractionKind) -> (u8, Option<CommandHandler>, Seq<char>) {
    match k {
        InteractionKind::Ping => (0u8, None, Seq::empty()),
        InteractionKind::Command(name) => match handler_of(name@) {
            Some(h) => (1u8, Some(h), Seq::empty()),
            None => (2u8, None, name@),
        },
        InteractionKind::Component => (3u8, None, Seq::empty()),
        InteractionKind::Other => (4u8, None, Seq::empty()),
    }
}

/// Dispatches an interaction to its handler (see `interaction_action_of`).
pub fn handle_interaction(k: InteractionKind) -> (a: InteractionAction)
    ensures
        interaction_action_view(a) == interaction_action_of(k),
{
    match k {
        InteractionKind::Ping => InteractionAction::Pong,
        InteractionKind::Command(name) => {
            if name == String::from_str("roll") {
                InteractionAction::Run(CommandHandler::Roll)
            } else if name == String::from_str("choose") {
                InteractionAction::Run(CommandHandler::Choose)
            } else if name == String::from_str("sponge") {
                InteractionAction::Run(CommandHandler::Sponge)
            } else if name == String::from_str("remindme") {
                InteractionAction::Run(CommandHandler::Remindme)
            } else {
                InteractionAction::UnknownCommand(name)
            }
        },
        InteractionKind::Component => InteractionAction::ComponentNotSupported,
        InteractionKind::Other => InteractionAction::UnknownInteraction,
    }
}

/// An event from the gateway, as far as the bot tells them apart.
#[derive(Debug)]
pub enum EventKind {
    /// The connection is ready; the bot is in this many guilds.
    Ready(usize),
    /// A user interacted.
    InteractionCreate(InteractionKind),
    /// Anything else.
    Other,
}

/// What the bot logs for an event, and at which level.
#[derive(Debug)]
pub enum LogLine {
    Info(String),
    Debug(String),
    Warn(String),
}

/// The level and text of a log line.
pub open spec fn log_line_view(l: LogLine) -> (u8, Seq<char>) {
    match l {
        LogLine::Info(t) => (0, t@),
        LogLine::Debug(t) => (1, t@),
        LogLine::Warn(t) => (2, t@),
    }
}

/// What the bot does with an event: the line it logs, and for an interaction what it
/// dispatches it to.
#[derive(Debug)]
pub struct EventResponse {
    pub log: LogLine,
    pub dispatch: Option<InteractionAction>,
}

/// Handles an event and dispatches it to its handler: ready is logged with the number of
/// guilds; an interaction is logged at debug level and dispatched (see
/// `interaction_action_of`); anything else is logged as unsupported.
pub fn handle_event(event: EventKind) -> (r: EventResponse)
    ensures
        log_line_view(r.log) == (match event {
            EventKind::Ready(n) => (0u8, "In "@ + nat_text(n as nat) + " guilds!"@),
            EventKind::InteractionCreate(_) => (1u8, "Interaction"@),
            EventKind::Other => (2u8, "unsupported event!"@),
        }),
        match event {
            EventKind::InteractionCreate(k) => r.dispatch matches Some(a)
                && interaction_action_view(a) == interaction_action_of(k),
            _ => r.dispatch is None,
        },
{
    match event {
        EventKind::Ready(n) => {
            let mut t = String::from_str("In ");
            t.append(u64_text(n as u64).as_str());
            t.append(" guilds!");
            EventResponse { log: LogLine::Info(t), dispatch: None }
        },
        EventKind::InteractionCreate(k) => EventResponse {
            log: LogLine::Debug(String::from_str("Interaction")),
            dispatch: Some(handle_interaction(k)),
        },
        EventKind::Other => EventResponse {
            log: LogLine::Warn(String::from_str("unsupported event!")),
            dispatch: None,
        },
    }
}

} // verus!
