//! A stick: the unit of mutual exclusion shared by two neighbours at the table.
//!
//! A stick records who holds it and counts how often it was picked up and put
//! down. Asking for a stick never waits: where a thread would block, the
//! answer is [`Attempt::Busy`] and the caller tries again later.

use vstd::prelude::*;

verus! {

/// A breach of the protocol by the caller. Each one leaves every state as it
/// was.
#[derive(Clone, Copy, PartialEq, Eq, Debug, Structural)]
pub enum ProtocolViolation {
    /// An actor asked for a stick that it already holds.
    AlreadyHolding,
    /// An actor tried to put down a stick that it does not hold.
    NotHolder,
    /// A transition was asked for in a phase that does not allow it.
    OutOfSequence,
    /// The stick handed over is not the one that the transition is about.
    WrongStick,
}

/// The answer to a request for a stick.
#[derive(Clone, Copy, PartialEq, Eq, Debug, Structural)]
pub enum Attempt {
    /// The stick was free and is now held by the caller.
    Granted,
    /// Somebody else holds the stick; nothing changed.
    Busy,
}

/// What a stick is, as a mathematical value.
pub struct StickView {
    /// Its index at the table.
    pub id: int,
    /// The actor that holds it, if any.
    pub holder: Option<int>,
    /// How often it has been picked up.
    pub acquired: nat,
    /// How often it has been put down.
    pub released: nat,
}

impl StickView {
    /// A stick that nobody has touched yet.
    pub open spec fn fresh(id: int) -> StickView {
        StickView { id, holder: None, acquired: 0, released: 0 }
    }

    /// Every pick-up but the one of the current holder has been matched by a
    /// put-down.
    pub open spec fn inv(self) -> bool {
        self.acquired == self.released + if self.holder is Some {
            1nat
        } else {
            0nat
        }
    }

    pub open spec fn is_free(self) -> bool {
        self.holder is None
    }

    pub open spec fn held_by(self, who: int) -> bool {
        self.holder == Some(who)
    }

    /// The stick after `who` has picked it up.
    pub open spec fn granted(self, who: int) -> StickView {
        StickView { holder: Some(who), acquired: self.acquired + 1, ..self }
    }

    /// The stick after its holder has put it down.
    pub open spec fn yielded(self) -> StickView {
        StickView { holder: None, released: self.released + 1, ..self }
    }

    /// The answer that `who` gets when asking for the stick.
    pub open spec fn answer(self, who: int) -> Result<Attempt, ProtocolViolation> {
        if self.is_free() {
            Ok(Attempt::Granted)
        } else if self.held_by(who) {
            Err(ProtocolViolation::AlreadyHolding)
        } else {
            Ok(Attempt::Busy)
        }
    }

    /// The stick after `who` has asked for it.
    pub open spec fn asked_by(self, who: int) -> StickView {
        if self.is_free() {
            self.granted(who)
        } else {
            self
        }
    }

    /// The stick after `who` has tried to put it down.
    pub open spec fn dropped_by(self, who: int) -> StickView {
        if self.held_by(who) {
            self.yielded()
        } else {
            self
        }
    }
}

/// One stick on the table.
#[derive(Clone, Copy, Debug)]
pub struct Stick {
    id: usize,
    holder: Option<usize>,
    acquired: u64,
    released: u64,
}

impl View for Stick {
    type V = StickView;

    closed spec fn view(&self) -> StickView {
        StickView {
            id: self.id as int,
            holder: match self.holder {
                Some(who) => Some(who as int),
                None => None,
            },
            acquired: self.acquired as nat,
            released: self.released as nat,
        }
    }
}

impl Stick {
    /// The counters agree with the holder.
    pub open spec fn wf(&self) -> bool {
        self@.inv()
    }

    /// A free stick with index `id`.
    pub fn new(id: usize) -> (stick: Stick)
        ensures
            stick@ == StickView::fresh(id as int),
            stick.wf(),
    {
        Stick { id, holder: None, acquired: 0, released: 0 }
    }

    pub fn id(&self) -> (id: usize)
        ensures
            id == self@.id,
    {
        self.id
    }

    /// The actor that holds the stick, if any.
    pub fn holder(&self) -> (holder: Option<usize>)
        ensures
            match holder {
                Some(who) => self@.holder == Some(who as int),
                None => self@.holder is None,
            },
    {
        self.holder
    }

    pub fn is_free(&self) -> (free: bool)
        ensures
            free == self@.is_free(),
    {
        self.holder.is_none()
    }

    pub fn is_held_by(&self, who: usize) -> (held: bool)
        ensures
            held == self@.held_by(who as int),
    {
        match self.holder {
            Some(h) => h == who,
            None => false,
        }
    }

    /// How often the stick has been picked up.
    pub fn acquire_count(&self) -> (count: u64)
        ensures
            count == self@.acquired,
    {
        self.acquired
    }

    /// How often the stick has been put down.
    pub fn release_count(&self) -> (count: u64)
        ensures
            count == self@.released,
    {
        self.released
    }

    /// `who` asks for the stick. A free stick is granted and counts one more
    /// pick-up; a stick in another hand answers `Busy`; asking for a stick
    /// that one already holds is a violation.
    pub fn acquire(&mut self, who: usize) -> (result: Result<Attempt, ProtocolViolation>)
        requires
            old(self).wf(),
            old(self)@.acquired < u64::MAX,
        ensures
            final(self).wf(),
            result == old(self)@.answer(who as int),
            final(self)@ == old(self)@.asked_by(who as int),
    {
        match self.holder {
            None => {
                self.holder = Some(who);
                self.acquired = self.acquired + 1;
                Ok(Attempt::Granted)
            },
            Some(h) => {
                if h == who {
                    Err(ProtocolViolation::AlreadyHolding)
                } else {
                    Ok(Attempt::Busy)
                }
            },
        }
    }

    /// `who` puts the stick down. Only its holder can: the stick is then free
    /// and counts one more put-down.
    pub fn release(&mut self, who: usize) -> (result: Result<(), ProtocolViolation>)
        requires
            old(self).wf(),
        ensures
            final(self).wf(),
            result is Ok <==> old(self)@.held_by(who as int),
            result is Err ==> result == Err::<(), ProtocolViolation>(ProtocolViolation::NotHolder),
            final(self)@ == old(self)@.dropped_by(who as int),
    {
        if self.is_held_by(who) {
            self.holder = None;
            self.released = self.released + 1;
            Ok(())
        } else {
            Err(ProtocolViolation::NotHolder)
        }
    }
}

} // verus!
