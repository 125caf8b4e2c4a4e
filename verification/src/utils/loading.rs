//! State of the loading screen shown while a project is opened: the step
//! reached, its message, and the animation frames of the spinner and logo.

use vstd::prelude::*;

verus! {

/// Number of frames of the spinner animation.
pub const SPINNER_FRAME_COUNT: usize = 10;

/// Number of frames of the logo animation.
pub const LOGO_FRAME_COUNT: usize = 2;

/// The spinner frame with the given index.
pub open spec fn spinner_glyph(frame: usize) -> Seq<char> {
    if frame == 0 { "⠋"@ } else if frame == 1 { "⠙"@ } else if frame == 2 { "⠹"@ }
    else if frame == 3 { "⠸"@ } else if frame == 4 { "⠼"@ } else if frame == 5 { "⠴"@ }
    else if frame == 6 { "⠦"@ } else if frame == 7 { "⠧"@ } else if frame == 8 { "⠇"@ }
    else { "⠏"@ }
}

/// Progress of the loading screen.
pub struct LoadingProgress {
    current_step: usize,
    total_steps: usize,
    current_message: String,
    spinner_frame: usize,
    logo_frame: usize,
}

impl LoadingProgress {
    /// The animation frames are always valid frame indices.
    #[verifier::type_invariant]
    spec fn frames_in_range(self) -> bool {
        self.spinner_frame < SPINNER_FRAME_COUNT && self.logo_frame < LOGO_FRAME_COUNT
    }

    /// The step reached.
    pub closed spec fn step(self) -> usize {
        self.current_step
    }

    /// The number of steps.
    pub closed spec fn total(self) -> usize {
        self.total_steps
    }

    /// The message of the current step.
    pub closed spec fn message(self) -> Seq<char> {
        self.current_message@
    }

    /// The spinner frame shown.
    pub closed spec fn spinner(self) -> usize {
        self.spinner_frame
    }

    /// The logo frame shown.
    pub closed spec fn logo(self) -> usize {
        self.logo_frame
    }

    /// Progress at the start of `total_steps` steps, with the message
    /// "Initializing..." and both animations at their first frame.
    pub fn new(total_steps: usize) -> (p: Self)
        ensures
            p.step() == 0,
            p.total() == total_steps,
            p.message() == "Initializing..."@,
            p.spinner() == 0,
            p.logo() == 0,
    {
        LoadingProgress {
            current_step: 0,
            total_steps,
            current_message: String::from_str("Initializing..."),
            spinner_frame: 0,
            logo_frame: 0,
        }
    }

    /// Moves to `step` with its `message`, and advances both animations by
    /// one frame, wrapping around.
    pub fn set_step(&mut self, step: usize, message: String)
        ensures
            final(self).step() == step,
            final(self).total() == old(self).total(),
            final(self).message() == message@,
            final(self).spinner() == (old(self).spinner() + 1) % (SPINNER_FRAME_COUNT as int),
            final(self).logo() == (old(self).logo() + 1) % (LOGO_FRAME_COUNT as int),
    {
        proof {
            use_type_invariant(&*self);
        }
        self.current_step = step;
        self.current_message = message;
        self.spinner_frame = (self.spinner_frame + 1) % SPINNER_FRAME_COUNT;
        self.logo_frame = (self.logo_frame + 1) % LOGO_FRAME_COUNT;
    }

    /// The step reached.
    pub fn current_step(&self) -> (r: usize)
        ensures
            r == self.step(),
    {
        self.current_step
    }

    /// The number of steps.
    pub fn total_steps(&self) -> (r: usize)
        ensures
            r == self.total(),
    {
        self.total_steps
    }

    /// The message of the current step.
    pub fn current_message(&self) -> (r: &str)
        ensures
            r@ == self.message(),
    {
        self.current_message.as_str()
    }

    /// The logo frame shown, a valid frame index.
    pub fn logo_frame(&self) -> (r: usize)
        ensures
            r == self.logo(),
            r < LOGO_FRAME_COUNT,
    {
        proof {
            use_type_invariant(self);
        }
        self.logo_frame
    }

    /// The symbol before the message: the current spinner frame while steps
    /// remain, a check mark once the last step is reached.
    pub fn status_symbol(&self) -> (r: &'static str)
        ensures
            r@ == (if self.step() < self.total() {
                spinner_glyph(self.spinner())
            } else {
                "✓"@
            }),
    {
        proof {
            use_type_invariant(self);
        }
        if self.current_step < self.total_steps {
            match self.spinner_frame {
                0 => "⠋",
                1 => "⠙",
                2 => "⠹",
                3 => "⠸",
                4 => "⠼",
                5 => "⠴",
                6 => "⠦",
                7 => "⠧",
                8 => "⠇",
                _ => "⠏",
            }
        } else {
            "✓"
        }
    }
}

} // verus!
