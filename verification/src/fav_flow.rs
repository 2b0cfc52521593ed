//! The steps of showing favs: `fav post`, `fav untagged` and `quote`, each a function from
//! the state and what happened to the next state and what to do.
use vstd::prelude::*;
use crate::fav::{fav_link, fav_link_text, fav_reaction_of, split_labels, space_pieces, tagged_favs,
    fav_to_post, Fav, FavReaction, Tag};
use crate::text::views;

verus! {

/// How long the poster's delete and label reactions are listened for, in milliseconds.
pub const EDIT_WINDOW_MILLIS: u64 = 120_000;

/// How long the information reaction on a posted fav is listened for, in milliseconds.
pub const FAV_INFO_WINDOW_MILLIS: u64 = 300_000;

/// Which command shows the fav.
#[derive(Clone, Copy, Debug, PartialEq, Eq, Structural)]
pub enum ShowKind {
    /// `fav post`: delete, label and information reactions.
    Post,
    /// `fav untagged`: delete and label reactions, offered by the bot's own reactions.
    Untagged,
}

/// Where showing a fav stands.
#[derive(Clone, Copy, Debug, PartialEq, Eq, Structural)]
pub enum ShowState {
    /// Nothing has happened yet.
    Start,
    /// The favs to choose from are being looked up.
    Looking,
    /// The fav's message is being fetched.
    Fetching(Fav),
    /// The fav is shown and its reactions are listened for.
    Shown(Fav),
    /// Finished.
    Done,
}

/// What happened.
#[derive(Debug)]
pub enum ShowEvent {
    /// The command was used; whether its user opted out.
    Invoked { requester_opted_out: bool },
    /// The candidates were looked up: the user's favs with their tags and the labels asked
    /// for (`fav post`), or the user's untagged favs with no labels (`fav untagged`).
    Candidates { favs: Vec<(Fav, Vec<Tag>)>, labels: Vec<String> },
    /// The fav's message was fetched; whether its author opted out.
    Fetched { author_opted_out: bool },
    /// A reaction on the shown fav: its emoji, whether by the user who asked, and how long
    /// after the fav was shown.
    Reacted { emoji: String, by_poster: bool, after_millis: u64 },
}

/// What to do.
#[derive(Debug)]
pub enum ShowAction {
    /// Send this message and stop.
    Say(String),
    /// Look the candidates up.
    LookUp,
    /// Fail with this error; nothing else is done.
    Fail(String),
    /// Fetch the fav's message; once it is fetched, for `fav post` also delete the message
    /// of the command. (Where it cannot be fetched, the command fails and nothing is
    /// deleted.)
    Fetch { fav: Fav, delete_command: bool },
    /// Stop without showing anything.
    Stop,
    /// Show the fav's message, for `fav untagged` reacting to it with the wastebasket and
    /// the label, and listen for reactions.
    Show { fav: Fav, add_reactions: bool },
    /// Delete the fav with this id.
    DeleteFav(i64),
    /// Ask the user for new labels of the fav with this id.
    AskLabels(i64),
    /// Send the user this link to the fav's message.
    SendLink(String),
    /// Do nothing.
    Ignore,
}

/// The plain values of an action: its kind (0 say, 1 look up, 2 fail, 3 fetch, 4 stop,
/// 5 show, 6 delete, 7 ask labels, 8 send link, 9 ignore), its text, fav and flag.
pub open spec fn show_action_view(a: ShowAction) -> (u8, Seq<char>, Option<Fav>, bool) {
    match a {
        ShowAction::Say(t) => (0u8, t@, None, false),
        ShowAction::LookUp => (1u8, Seq::empty(), None, false),
        ShowAction::Fail(t) => (2u8, t@, None, false),
        ShowAction::Fetch { fav, delete_command } => (3u8, Seq::empty(), Some(fav), delete_command),
        ShowAction::Stop => (4u8, Seq::empty(), None, false),
        ShowAction::Show { fav, add_reactions } => (5u8, Seq::empty(), Some(fav), add_reactions),
        ShowAction::DeleteFav(id) => (6u8, Seq::empty(), Some(Fav { id, server_id: 0, channel_id: 0, msg_id: 0, user_id: 0, author_id: 0 }), false),
        ShowAction::AskLabels(id) => (7u8, Seq::empty(), Some(Fav { id, server_id: 0, channel_id: 0, msg_id: 0, user_id: 0, author_id: 0 }), false),
        ShowAction::SendLink(t) => (8u8, t@, None, false),
        ShowAction::Ignore => (9u8, Seq::empty(), None, false),
    }
}

/// The id of a fav, as the plain value of an action that names only the id.
pub open spec fn id_only(id: i64) -> Fav {
    Fav { id, server_id: 0, channel_id: 0, msg_id: 0, user_id: 0, author_id: 0 }
}

/// The step of showing a fav, as plain values: the next state and the action.
///
/// - Used by someone who opted out, `fav post` answers that and stops; nothing is looked
///   up. (`fav untagged` does not ask.)
/// - With no candidate, `fav post` fails with `possible favs empty` and `fav untagged`
///   answers that there is none; otherwise `fav post` picks one of the favs whose tags
///   cover the labels (`chosen`) and `fav untagged` takes the first one.
/// - When the fav's author opted out, nothing is shown and no reaction is listened for.
/// - A reaction within its window: the poster's wastebasket deletes exactly that fav, the
///   poster's label asks for new labels, and for `fav post` anyone's information sign
///   sends the link; any other reaction, or one too late, does nothing.
pub open spec fn show_step_of(kind: ShowKind, state: ShowState, event: ShowEvent, chosen: Option<Fav>)
    -> (ShowState, (u8, Seq<char>, Option<Fav>, bool))
{
    match (state, event) {
        (ShowState::Start, ShowEvent::Invoked { requester_opted_out }) =>
            if kind == ShowKind::Post && requester_opted_out {
                (ShowState::Done, (0u8, "You have opted out of the quote functionality"@, None, false))
            } else {
                (ShowState::Looking, (1u8, Seq::empty(), None, false))
            },
        (ShowState::Looking, ShowEvent::Candidates { favs, labels }) => match kind {
            ShowKind::Post => match chosen {
                None => (ShowState::Done, (2u8, "possible favs empty"@, None, false)),
                Some(f) => (ShowState::Fetching(f), (3u8, Seq::empty(), Some(f), true)),
            },
            ShowKind::Untagged => if favs@.len() == 0 {
                (ShowState::Done, (0u8, "Du hat keine untagged Favs!"@, None, false))
            } else {
                (ShowState::Fetching(favs@[0].0), (3u8, Seq::empty(), Some(favs@[0].0), false))
            },
        },
        (ShowState::Fetching(f), ShowEvent::Fetched { author_opted_out }) =>
            if author_opted_out {
                (ShowState::Done, (4u8, Seq::empty(), None, false))
            } else {
                (ShowState::Shown(f), (5u8, Seq::empty(), Some(f), kind == ShowKind::Untagged))
            },
        (ShowState::Shown(f), ShowEvent::Reacted { emoji, by_poster, after_millis }) =>
            match fav_reaction_of(emoji@, by_poster) {
                Some(FavReaction::Delete) => if after_millis < EDIT_WINDOW_MILLIS {
                    (ShowState::Shown(f), (6u8, Seq::empty(), Some(id_only(f.id)), false))
                } else {
                    (ShowState::Shown(f), (9u8, Seq::empty(), None, false))
                },
                Some(FavReaction::Label) => if after_millis < EDIT_WINDOW_MILLIS {
                    (ShowState::Shown(f), (7u8, Seq::empty(), Some(id_only(f.id)), false))
                } else {
                    (ShowState::Shown(f), (9u8, Seq::empty(), None, false))
                },
                Some(FavReaction::Info) => if kind == ShowKind::Post && after_millis < FAV_INFO_WINDOW_MILLIS {
                    (ShowState::Shown(f), (8u8, fav_link_text(f), None, false))
                } else {
                    (ShowState::Shown(f), (9u8, Seq::empty(), None, false))
                },
                None => (ShowState::Shown(f), (9u8, Seq::empty(), None, false)),
            },
        (s, _) => (s, (9u8, Seq::empty(), None, false)),
    }
}

/// The fav that `fav post` may pick among the candidates: one whose tags cover the labels.
pub open spec fn may_pick(favs: Seq<(Fav, Vec<Tag>)>, labels: Seq<Seq<char>>, chosen: Option<Fav>) -> bool {
    &&& tagged_favs(favs, labels).len() == 0 <==> chosen is None
    &&& chosen matches Some(f) ==> tagged_favs(favs, labels).contains(f)
}

/// One step of showing a fav (see `show_step_of`). The fav that `fav post` picks is chosen
/// at random among those that cover the labels.
pub fn show_step(kind: ShowKind, state: ShowState, event: ShowEvent) -> (r: (ShowState, ShowAction))
    ensures
        exists|chosen: Option<Fav>| {
            &&& (kind == ShowKind::Post && state == ShowState::Looking ==> (event matches ShowEvent::Candidates { favs, labels }
                ==> may_pick(favs@, views(labels@), chosen)))
            &&& #[trigger] show_step_of(kind, state, event, chosen) == (r.0, show_action_view(r.1))
        },
{
    match (state, event) {
        (ShowState::Start, ShowEvent::Invoked { requester_opted_out }) => {
            if kind == ShowKind::Post && requester_opted_out {
                let r = (ShowState::Done, ShowAction::Say(String::from_str("You have opted out of the quote functionality")));
                assert(show_step_of(kind, state, event, None) == (r.0, show_action_view(r.1)));
                r
            } else {
                let r = (ShowState::Looking, ShowAction::LookUp);
                assert(show_step_of(kind, state, event, None) == (r.0, show_action_view(r.1)));
                r
            }
        },
        (ShowState::Looking, ShowEvent::Candidates { favs, labels }) => {
            match kind {
                ShowKind::Post => {
                    let chosen = fav_to_post(&favs, &labels);
                    match chosen {
                        None => {
                            let r = (ShowState::Done, ShowAction::Fail(String::from_str("possible favs empty")));
                            assert(show_step_of(kind, state, event, chosen) == (r.0, show_action_view(r.1)));
                            r
                        },
                        Some(f) => {
                            let r = (ShowState::Fetching(f), ShowAction::Fetch { fav: f, delete_command: true });
                            assert(show_step_of(kind, state, event, chosen) == (r.0, show_action_view(r.1)));
                            r
                        },
                    }
                },
                ShowKind::Untagged => {
                    if favs.len() == 0 {
                        let r = (ShowState::Done, ShowAction::Say(String::from_str("Du hat keine untagged Favs!")));
                        assert(show_step_of(kind, state, event, None) == (r.0, show_action_view(r.1)));
                        r
                    } else {
                        let f = favs[0].0;
                        let r = (ShowState::Fetching(f), ShowAction::Fetch { fav: f, delete_command: false });
                        assert(show_step_of(kind, state, event, None) == (r.0, show_action_view(r.1)));
                        r
                    }
                },
            }
        },
        (ShowState::Fetching(f), ShowEvent::Fetched { author_opted_out }) => {
            if author_opted_out {
                let r = (ShowState::Done, ShowAction::Stop);
                assert(show_step_of(kind, state, event, None) == (r.0, show_action_view(r.1)));
                r
            } else {
                let r = (ShowState::Shown(f), ShowAction::Show { fav: f, add_reactions: kind == ShowKind::Untagged });
                assert(show_step_of(kind, state, event, None) == (r.0, show_action_view(r.1)));
                r
            }
        },
        (ShowState::Shown(f), ShowEvent::Reacted { emoji, by_poster, after_millis }) => {
            let ghost ev = event;
            let reaction = crate::fav::fav_reaction(emoji.as_str(), by_poster);
            let action = match reaction {
                Some(FavReaction::Delete) => if after_millis < EDIT_WINDOW_MILLIS {
                    ShowAction::DeleteFav(f.id)
                } else {
                    ShowAction::Ignore
                },
                Some(FavReaction::Label) => if after_millis < EDIT_WINDOW_MILLIS {
                    ShowAction::AskLabels(f.id)
                } else {
                    ShowAction::Ignore
                },
                Some(FavReaction::Info) => if kind == ShowKind::Post && after_millis < FAV_INFO_WINDOW_MILLIS {
                    ShowAction::SendLink(fav_link(&f))
                } else {
                    ShowAction::Ignore
                },
                None => ShowAction::Ignore,
            };
            let r = (ShowState::Shown(f), action);
            assert(show_step_of(kind, state, ev, None) == (r.0, show_action_view(r.1)));
            r
        },
        (s, e) => {
            let r = (s, ShowAction::Ignore);
            assert(show_step_of(kind, state, e, None) == (r.0, show_action_view(r.1)));
            r
        },
    }
}

/// How a fav is labelled anew: its tags are deleted, then one tag is created per piece of
/// the reply, in order, and the user is told.
#[derive(Debug)]
pub struct Relabel {
    pub fav_id: i64,
    pub labels: Vec<String>,
    pub reply: String,
}

/// Relabels a fav from the user's reply: the pieces between single spaces become its tags
/// (see `space_pieces`), and the answer is `added the tags!`.
pub fn relabel(fav_id: i64, reply: &str) -> (r: Relabel)
    ensures
        r.fav_id == fav_id,
        space_pieces(reply@, views(r.labels@)),
        r.reply@ == "added the tags!"@,
{
    Relabel { fav_id, labels: split_labels(reply), reply: String::from_str("added the tags!") }
}

} // verus!
