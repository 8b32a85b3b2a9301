//! Protocol operations: the tagged union carried by every wire frame.

use vstd::prelude::*;

verus! {

/// Wire opcode of an operation: the first byte of every decrypted payload.
#[derive(Clone, Copy, PartialEq, Eq, Structural, Debug)]
pub enum OpCode {
    Message,
    User,
    Leave,
}

impl OpCode {
    /// The byte this opcode is written as on the wire.
    pub open spec fn spec_byte(self) -> u8 {
        match self {
            OpCode::Message => 0,
            OpCode::User => 1,
            OpCode::Leave => 2,
        }
    }

    /// Executable form of [`OpCode::spec_byte`].
    pub fn to_byte(self) -> (b: u8)
        ensures
            b == self.spec_byte(),
    {
        match self {
            OpCode::Message => 0,
            OpCode::User => 1,
            OpCode::Leave => 2,
        }
    }

    /// The opcode a wire byte stands for, if any.
    pub open spec fn spec_from_byte(value: u8) -> Option<OpCode> {
        if value == 0 {
            Some(OpCode::Message)
        } else if value == 1 {
            Some(OpCode::User)
        } else if value == 2 {
            Some(OpCode::Leave)
        } else {
            None
        }
    }

    /// Fallible conversion from a wire byte; unknown bytes are rejected.
    pub fn try_from(value: u8) -> (r: Result<OpCode, ()>)
        ensures
            match r {
                Ok(c) => OpCode::spec_from_byte(value) == Some(c),
                Err(()) => OpCode::spec_from_byte(value) is None,
            },
    {
        match value {
            0 => Ok(OpCode::Message),
            1 => Ok(OpCode::User),
            2 => Ok(OpCode::Leave),
            _ => Err(()),
        }
    }
}

/// One protocol operation, as produced by the application layer and carried
/// in one frame.  Immutable once created.
pub enum Op {
    Message(OpCode, String, String),
    User(OpCode, String),
    Leave(OpCode, String),
}

/// The mathematical value of an [`Op`]: variant plus the character sequences
/// of its fields.  The stored opcode is not part of the view; well-formed
/// operations tie it to the variant (see [`Op::wf`]).
pub enum OpView {
    Message { user: Seq<char>, text: Seq<char> },
    User { user: Seq<char> },
    Leave { user: Seq<char> },
}

impl View for Op {
    type V = OpView;

    open spec fn view(&self) -> OpView {
        match self {
            Op::Message(_, u, t) => OpView::Message { user: u@, text: t@ },
            Op::User(_, u) => OpView::User { user: u@ },
            Op::Leave(_, u) => OpView::Leave { user: u@ },
        }
    }
}

impl Op {
    /// The opcode stored inside the operation.
    pub open spec fn spec_opcode(self) -> OpCode {
        match self {
            Op::Message(c, _, _) => c,
            Op::User(c, _) => c,
            Op::Leave(c, _) => c,
        }
    }

    /// A well-formed operation carries the opcode of its own variant.
    pub open spec fn wf(self) -> bool {
        match self {
            Op::Message(c, _, _) => c == OpCode::Message,
            Op::User(c, _) => c == OpCode::User,
            Op::Leave(c, _) => c == OpCode::Leave,
        }
    }

    /// Builds a message operation with the matching opcode.
    pub fn new_message(user: String, text: String) -> (r: Op)
        ensures
            r.wf(),
            r@ == (OpView::Message { user: user@, text: text@ }),
    {
        Op::Message(OpCode::Message, user, text)
    }

    /// Builds an announce operation with the matching opcode.
    pub fn new_user(user: String) -> (r: Op)
        ensures
            r.wf(),
            r@ == (OpView::User { user: user@ }),
    {
        Op::User(OpCode::User, user)
    }

    /// Builds a leave operation with the matching opcode.
    pub fn new_leave(user: String) -> (r: Op)
        ensures
            r.wf(),
            r@ == (OpView::Leave { user: user@ }),
    {
        Op::Leave(OpCode::Leave, user)
    }
}

impl PartialEq for Op {
    fn eq(&self, other: &Op) -> (r: bool) {
        match (self, other) {
            (Op::Message(c1, u1, t1), Op::Message(c2, u2, t2)) => {
                *c1 == *c2 && u1.eq(u2) && t1.eq(t2)
            },
            (Op::User(c1, u1), Op::User(c2, u2)) => *c1 == *c2 && u1.eq(u2),
            (Op::Leave(c1, u1), Op::Leave(c2, u2)) => *c1 == *c2 && u1.eq(u2),
            _ => false,
        }
    }
}

impl vstd::std_specs::cmp::PartialEqSpecImpl for Op {
    open spec fn obeys_eq_spec() -> bool {
        true
    }

    open spec fn eq_spec(&self, other: &Op) -> bool {
        self.spec_opcode() == other.spec_opcode() && self@ == other@
    }
}

} // verus!
