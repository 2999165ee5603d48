//! The main menu: a play button and a quit button.
use vstd::prelude::*;
use crate::audio::{Effect, Theme};
use crate::button::{Button, point_in};
use crate::geometry::Rect;
use crate::scenes::{FrameInput, Outcome, Transition};

verus! {

/// The theme that loops while the menu is shown.
pub const MENU_THEME: Theme = Theme::Menu;

/// Whether the frame's click lands on the button.
pub open spec fn pressed(b: Button, input: FrameInput) -> bool {
    input.click && point_in(input.mouse, b.absolute(input.arena))
}

/// The button after the pointer has been checked against it.
pub open spec fn hovered(b: Button, input: FrameInput) -> bool {
    point_in(input.mouse, b.absolute(input.arena))
}

#[derive(Debug)]
pub struct Menu {
    pub buttons: Vec<Button>,
}

impl Menu {
    pub open spec fn wf(&self) -> bool {
        forall|i: int| 0 <= i < self.buttons@.len() ==> (#[trigger] self.buttons@[i]).wf()
    }

    /// The menu as it is first shown: PLAY above QUIT, neither under the pointer.
    pub open spec fn is_fresh(&self) -> bool {
        &&& self.buttons@.len() == 2
        &&& self.buttons@[0].label@ == "PLAY"@
        &&& self.buttons@[1].label@ == "QUIT"@
        &&& self.buttons@[0].bounds == (Rect { x: 35, y: 40, w: 30, h: 8 })
        &&& self.buttons@[0].action == Transition::ToGame
        &&& !self.buttons@[0].hovering
        &&& self.buttons@[1].bounds == (Rect { x: 35, y: 52, w: 30, h: 8 })
        &&& self.buttons@[1].action == Transition::Quit
        &&& !self.buttons@[1].hovering
    }

    pub fn new() -> (r: Menu)
        ensures
            r.is_fresh(),
            r.wf(),
    {
        proof {
            reveal_strlit("PLAY");
            reveal_strlit("QUIT");
        }
        let play_button = Button::menu_button("PLAY".to_string(), 40, Transition::ToGame);
        let quit_button = Button::menu_button("QUIT".to_string(), 52, Transition::Quit);
        let mut buttons: Vec<Button> = Vec::new();
        buttons.push(play_button);
        buttons.push(quit_button);
        Menu { buttons }
    }

    /// In the menu the exit key quits.
    pub fn handle_common_input(&self, input: &FrameInput) -> (r: Option<Transition>)
        ensures
            r == if input.escape { Some(Transition::Quit) } else { None },
    {
        if input.escape {
            Some(Transition::Quit)
        } else {
            None
        }
    }

    /// Runs one frame: the exit key quits; otherwise the buttons are checked
    /// in order against the pointer, and the first one clicked asks for its
    /// transition, with a click sound, and ends the check.
    pub fn update(&mut self, input: &FrameInput) -> (r: Outcome)
        requires
            old(self).wf(),
            input.wf(),
        ensures
            final(self).wf(),
            !r.quit,
            r.music@.len() == 0,
            final(self).buttons@.len() == old(self).buttons@.len(),
            forall|j: int| 0 <= j < old(self).buttons@.len() ==> {
                &&& (#[trigger] final(self).buttons@[j]).bounds == old(self).buttons@[j].bounds
                &&& final(self).buttons@[j].action == old(self).buttons@[j].action
                &&& final(self).buttons@[j].label == old(self).buttons@[j].label
            },
            input.escape ==> {
                &&& r.transition == Some(Transition::Quit)
                &&& *final(self) == *old(self)
                &&& r.effects@.len() == 0
            },
            !input.escape && (forall|j: int| 0 <= j < old(self).buttons@.len() ==> !pressed(#[trigger] old(self).buttons@[j], *input)) ==> {
                &&& r.transition.is_none()
                &&& r.effects@.len() == 0
                &&& forall|j: int| 0 <= j < old(self).buttons@.len() ==>
                    (#[trigger] final(self).buttons@[j]).hovering == hovered(old(self).buttons@[j], *input)
            },
            forall|k: int| 0 <= k < old(self).buttons@.len() && !input.escape && pressed(#[trigger] old(self).buttons@[k], *input)
                && (forall|j: int| 0 <= j < k ==> !pressed(#[trigger] old(self).buttons@[j], *input)) ==> {
                &&& r.transition == Some(old(self).buttons@[k].action)
                &&& r.effects@ == seq![Effect::ButtonClick]
                &&& forall|j: int| 0 <= j <= k ==>
                    (#[trigger] final(self).buttons@[j]).hovering == hovered(old(self).buttons@[j], *input)
                &&& forall|j: int| k < j < old(self).buttons@.len() ==>
                    (#[trigger] final(self).buttons@[j]).hovering == old(self).buttons@[j].hovering
            },
    {
        if let Some(t) = self.handle_common_input(input) {
            return Outcome { transition: Some(t), quit: false, effects: Vec::new(), music: Vec::new() };
        }
        let ghost b0 = self.buttons@;
        let mut i: usize = 0;
        while i < self.buttons.len()
            invariant
                input.wf(),
                !input.escape,
                i <= self.buttons@.len(),
                self.buttons@.len() == b0.len(),
                b0 == old(self).buttons@,
                forall|j: int| 0 <= j < b0.len() ==> (#[trigger] b0[j]).wf(),
                forall|j: int| 0 <= j < b0.len() ==> {
                    &&& (#[trigger] self.buttons@[j]).bounds == b0[j].bounds
                    &&& self.buttons@[j].action == b0[j].action
                    &&& self.buttons@[j].label == b0[j].label
                },
                forall|j: int| 0 <= j < i ==> !pressed(#[trigger] b0[j], *input),
                forall|j: int| 0 <= j < i ==> (#[trigger] self.buttons@[j]).hovering == hovered(b0[j], *input),
                forall|j: int| i <= j < b0.len() ==> (#[trigger] self.buttons@[j]).hovering == b0[j].hovering,
            decreases b0.len() - i,
        {
            let ghost before = self.buttons@;
            let clicked = self.buttons[i].update(input.mouse, input.click, input.arena);
            proof {
                assert(self.buttons@.len() == before.len());
                assert forall|j: int| 0 <= j < b0.len() && j != i implies #[trigger] self.buttons@[j] == before[j] by {}
            }
            if let Some(t) = clicked {
                let mut effects: Vec<Effect> = Vec::new();
                effects.push(Effect::ButtonClick);
                proof {
                    assert(effects@ =~= seq![Effect::ButtonClick]);
                }
                return Outcome { transition: Some(t), quit: false, effects, music: Vec::new() };
            }
            i = i + 1;
        }
        Outcome { transition: None, quit: false, effects: Vec::new(), music: Vec::new() }
    }
}

} // verus!
