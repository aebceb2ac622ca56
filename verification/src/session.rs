use vstd::prelude::*;

verus! {

/// The confirmation the user is being asked for, if any; `P` is how an image to open is
/// named (a path, in the program).
#[derive(Debug, Clone, PartialEq, Eq)]
pub enum PendingDialog<P> {
    Idle,
    ConfirmClose,
    ConfirmNewDrawing,
    ConfirmOpen(P),
}

/// The buttons clicked on a confirmation dialog in one frame.
#[derive(Debug, Clone, Copy, PartialEq, Eq, Structural)]
pub struct ConfirmResponse {
    pub cancel_clicked: bool,
    pub confirm_clicked: bool,
}

/// The program's confirmation state: which confirmation is pending, and whether the
/// window may close when the platform asks it to.
#[derive(Debug, Clone)]
pub struct Session<P> {
    pub pending: PendingDialog<P>,
    pub allow_native_close: bool,
}

/// The session after the platform asks the window to close: unless closing was
/// confirmed, the close is held back and a confirmation is asked for.
pub open spec fn after_close_request<P>(s: Session<P>) -> Session<P> {
    if s.allow_native_close {
        s
    } else {
        Session { pending: PendingDialog::ConfirmClose, allow_native_close: false }
    }
}

/// The session after the quit confirmation is answered: cancelling forgets the request,
/// confirming allows the window to close; either way the dialog goes away.
pub open spec fn after_close_answer<P>(s: Session<P>, r: ConfirmResponse) -> Session<P> {
    if s.pending != PendingDialog::<P>::ConfirmClose {
        s
    } else if r.confirm_clicked {
        Session { pending: PendingDialog::Idle, allow_native_close: true }
    } else if r.cancel_clicked {
        Session { pending: PendingDialog::Idle, allow_native_close: false }
    } else {
        s
    }
}

impl<P> Session<P> {
    /// No confirmation pending, and closing not yet allowed.
    pub fn new() -> (s: Self)
        ensures
            s.pending == PendingDialog::<P>::Idle,
            !s.allow_native_close,
    {
        Session { pending: PendingDialog::Idle, allow_native_close: false }
    }

    /// Whether a confirmation is pending, which blocks drawing on the canvas.
    pub fn interaction_blocked(&self) -> (r: bool)
        ensures
            r == (self.pending != PendingDialog::<P>::Idle),
    {
        match self.pending {
            PendingDialog::Idle => false,
            _ => true,
        }
    }

    /// The platform asks the window to close; returns whether that close must be
    /// cancelled, which is when it was not confirmed, and asks for confirmation then.
    pub fn close_requested(&mut self) -> (cancel_close: bool)
        ensures
            cancel_close == !old(self).allow_native_close,
            *final(self) == after_close_request(*old(self)),
    {
        if !self.allow_native_close {
            self.pending = PendingDialog::ConfirmClose;
            true
        } else {
            false
        }
    }

    /// The quit button asks for confirmation and withdraws any earlier permission to close.
    pub fn quit_clicked(&mut self)
        ensures
            final(self).pending == PendingDialog::<P>::ConfirmClose,
            !final(self).allow_native_close,
    {
        self.allow_native_close = false;
        self.pending = PendingDialog::ConfirmClose;
    }

    /// The new-drawing button asks for confirmation.
    pub fn new_drawing_clicked(&mut self)
        ensures
            final(self).pending == PendingDialog::<P>::ConfirmNewDrawing,
            final(self).allow_native_close == old(self).allow_native_close,
    {
        self.pending = PendingDialog::ConfirmNewDrawing;
    }

    /// An image was chosen to open. On a blank canvas it is handed back to be loaded at
    /// once; otherwise replacing the drawing needs confirmation first.
    pub fn open_chosen(&mut self, image: P, canvas_blank: bool) -> (load_now: Option<P>)
        ensures
            canvas_blank ==> load_now == Some(image) && *final(self) == *old(self),
            !canvas_blank ==> load_now == None::<P> && final(self).pending == PendingDialog::ConfirmOpen(image)
                && final(self).allow_native_close == old(self).allow_native_close,
    {
        if canvas_blank {
            Some(image)
        } else {
            self.pending = PendingDialog::ConfirmOpen(image);
            None
        }
    }

    /// Applies the answer to the quit confirmation, if that is the one pending; returns
    /// whether the window is to close now.
    pub fn answer_close(&mut self, response: ConfirmResponse) -> (close_now: bool)
        ensures
            close_now == (old(self).pending == PendingDialog::<P>::ConfirmClose && response.confirm_clicked),
            *final(self) == after_close_answer(*old(self), response),
    {
        if !matches!(self.pending, PendingDialog::ConfirmClose) {
            return false;
        }
        if response.cancel_clicked {
            self.allow_native_close = false;
            self.pending = PendingDialog::Idle;
        }
        if response.confirm_clicked {
            self.allow_native_close = true;
            self.pending = PendingDialog::Idle;
            return true;
        }
        false
    }

    /// Applies the answer to the new-drawing confirmation, if that is the one pending;
    /// returns whether the drawing is to be cleared now.
    pub fn answer_new_drawing(&mut self, response: ConfirmResponse) -> (clear_now: bool)
        ensures
            clear_now == (old(self).pending == PendingDialog::<P>::ConfirmNewDrawing && response.confirm_clicked),
            final(self).allow_native_close == old(self).allow_native_close,
            final(self).pending == (if old(self).pending == PendingDialog::<P>::ConfirmNewDrawing && (
            response.cancel_clicked || response.confirm_clicked) {
                PendingDialog::Idle
            } else {
                old(self).pending
            }),
    {
        if !matches!(self.pending, PendingDialog::ConfirmNewDrawing) {
            return false;
        }
        if response.cancel_clicked || response.confirm_clicked {
            self.pending = PendingDialog::Idle;
        }
        response.confirm_clicked
    }

    /// Applies the answer to the open-image confirmation, if that is the one pending;
    /// returns the image to load now, if the answer was to open it.
    pub fn answer_open(&mut self, response: ConfirmResponse) -> (load_now: Option<P>)
        ensures
            final(self).allow_native_close == old(self).allow_native_close,
            match old(self).pending {
                PendingDialog::ConfirmOpen(image) => {
                    &&& load_now == (if response.confirm_clicked { Some(image) } else { None::<P> })
                    &&& final(self).pending == (if response.cancel_clicked || response.confirm_clicked {
                        PendingDialog::Idle
                    } else {
                        old(self).pending
                    })
                },
                _ => load_now == None::<P> && final(self).pending == old(self).pending,
            },
    {
        let mut taken = PendingDialog::Idle;
        std::mem::swap(&mut taken, &mut self.pending);
        match taken {
            PendingDialog::ConfirmOpen(image) => {
                if response.confirm_clicked {
                    Some(image)
                } else if response.cancel_clicked {
                    None
                } else {
                    self.pending = PendingDialog::ConfirmOpen(image);
                    None
                }
            },
            other => {
                self.pending = other;
                None
            },
        }
    }
}

/// Once closing is confirmed, a later request from the platform to close goes through.
pub proof fn lemma_confirmed_close_goes_through<P>(s: Session<P>, r: ConfirmResponse)
    requires
        s.pending == PendingDialog::<P>::ConfirmClose,
        r.confirm_clicked,
    ensures
        after_close_answer(s, r).allow_native_close,
        after_close_request(after_close_answer(s, r)) == after_close_answer(s, r),
{
}

/// Until closing is confirmed, every request from the platform to close is held back
/// and answered with the quit confirmation; cancelling it keeps it so.
pub proof fn lemma_unconfirmed_close_is_held<P>(s: Session<P>, r: ConfirmResponse)
    requires
        !s.allow_native_close,
        !r.confirm_clicked,
    ensures
        after_close_request(s).pending == PendingDialog::<P>::ConfirmClose,
        !after_close_answer(after_close_request(s), r).allow_native_close,
{
}

} // verus!
