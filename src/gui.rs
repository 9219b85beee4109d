//! What the screens show and what their buttons ask for, as plain values.
use vstd::prelude::*;

use crate::game::{Game, ResourceAlterationEvent};
use crate::kingdom::ResourceError;
use crate::log::{Log, LogEntryView};
use crate::resource::{ResourceReference, ResourceTypes, Transform};
use crate::text::{join, nat_text, nat_to_text};

verus! {

/// The screen the application shows.
#[derive(Debug, Clone, Copy, PartialEq, Eq, Structural, Hash)]
pub enum AppState {
    Loading,
    Playing,
    MainMenu,
}

impl AppState {
    /// The main menu's start button, once clicked, starts the game; nothing
    /// else changes the screen.
    pub fn update_main_menu(&mut self, start_clicked: bool)
        ensures
            *old(self) == AppState::MainMenu && start_clicked ==> *final(self) == AppState::Playing,
            !(*old(self) == AppState::MainMenu && start_clicked) ==> *final(self) == *old(self),
    {
        if start_clicked && *self == AppState::MainMenu {
            *self = AppState::Playing;
        }
    }
}

/// The log message of the button that blesses a kind of resource.
pub open spec fn blessing_message(kind: ResourceTypes) -> Seq<char> {
    match kind {
        ResourceTypes::Food => "You bless the fields."@,
        ResourceTypes::Industry => "You inspire the laborers with vigor."@,
        ResourceTypes::Faith => "Minor miracles cultivate the people's faith."@,
        ResourceTypes::Populace => "Blessings of fertility bolster the populace."@,
        ResourceTypes::Military => "Visions of glorious crusades dance in their heads."@,
        ResourceTypes::Happiness => "You help an old woman find her keys."@,
    }
}

/// A button of the game screen that asks for resource changes when clicked.
pub struct ResourceInteractionButton {
    pub interactions: Vec<(ResourceReference, Transform)>,
    pub message: String,
}

impl ResourceInteractionButton {
    /// The button beside a resource: it adds one to that resource, with the
    /// blessing message of its kind.
    pub fn new(r: ResourceReference) -> (b: ResourceInteractionButton)
        ensures
            b.interactions@ == seq![(r, Transform::Increment(1))],
            b.message@ == blessing_message(r.resource),
    {
        let text = match r.resource {
            ResourceTypes::Food => "You bless the fields.",
            ResourceTypes::Industry => "You inspire the laborers with vigor.",
            ResourceTypes::Faith => "Minor miracles cultivate the people's faith.",
            ResourceTypes::Populace => "Blessings of fertility bolster the populace.",
            ResourceTypes::Military => "Visions of glorious crusades dance in their heads.",
            ResourceTypes::Happiness => "You help an old woman find her keys.",
        };
        let mut interactions: Vec<(ResourceReference, Transform)> = Vec::new();
        interactions.push((r, Transform::Increment(1)));
        assert(interactions@ =~= seq![(r, Transform::Increment(1))]);
        ResourceInteractionButton { interactions, message: String::from_str(text) }
    }

    /// The event that a click on the button sends: its message and its changes.
    pub fn do_resource_interaction(&self) -> (e: ResourceAlterationEvent)
        ensures
            e@ == (self.message@, self.interactions@),
    {
        let mut changes: Vec<(ResourceReference, Transform)> = Vec::new();
        let mut i: usize = 0;
        while i < self.interactions.len()
            invariant
                i <= self.interactions@.len(),
                changes@ == self.interactions@.subrange(0, i as int),
            decreases self.interactions@.len() - i,
        {
            let (r, t) = self.interactions[i];
            changes.push((r, t));
            assert(changes@ =~= self.interactions@.subrange(0, i + 1));
            i = i + 1;
        }
        assert(changes@ =~= self.interactions@);
        ResourceAlterationEvent { message: self.message.clone(), changes }
    }
}

/// The text of one log entry: its header, a line break, its detail.
pub open spec fn entry_text(e: LogEntryView) -> Seq<char> {
    e.0 + seq!['\n'] + e.1
}

/// The text the log panel shows: every entry, oldest first, one after another
/// on separate lines.
pub fn log_text(log: &Log) -> (s: String)
    ensures
        s@ == join(log@.map_values(|e: LogEntryView| entry_text(e)), seq!['\n']),
{
    let ghost texts = log@.map_values(|e: LogEntryView| entry_text(e));
    let mut s = String::new();
    let mut i: usize = 0;
    proof {
        reveal_strlit("\n");
    }
    while i < log.0.len()
        invariant
            i <= log@.len(),
            texts == log@.map_values(|e: LogEntryView| entry_text(e)),
            "\n"@ == seq!['\n'],
            s@ == join(texts.subrange(0, i as int), seq!['\n']),
        decreases log@.len() - i,
    {
        let ghost before = s@;
        if i > 0 {
            s.append("\n");
        }
        let ghost lead = s@;
        s.append(log.0[i].0.as_str());
        s.append("\n");
        s.append(log.0[i].1.as_str());
        proof {
            let t0 = texts.subrange(0, i as int);
            let t1 = texts.subrange(0, i + 1);
            assert(t1.drop_last() =~= t0);
            assert(t1.last() == entry_text(log@[i as int]));
            assert(s@ =~= lead + entry_text(log@[i as int]));
            if i > 0 {
                assert(lead =~= before + seq!['\n']);
            } else {
                assert(t0 =~= Seq::<Seq<char>>::empty());
            }
        }
        i = i + 1;
    }
    assert(texts.subrange(0, log@.len() as int) =~= texts);
    s
}

impl Game {
    /// The text shown beside a resource: its committed amount in decimal, or
    /// `NotFound` when `r` names no kingdom of the game.
    pub fn resource_text(&self, r: &ResourceReference) -> (res: Result<String, ResourceError>)
        requires
            self.wf(),
        ensures
            self@.valid_ref(*r) ==> res is Ok && res->Ok_0@ == nat_text(self@.value_of(*r) as nat),
            !self@.valid_ref(*r) ==> res == Err::<String, ResourceError>(ResourceError::NotFound),
    {
        match self.value(r) {
            Ok(v) => Ok(nat_to_text(v as u64)),
            Err(e) => Err(e),
        }
    }
}

} // verus!
