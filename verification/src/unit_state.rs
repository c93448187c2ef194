//! Enablement states, and how one is decoded from the message of the bus.

use crate::error::UnitError;
use vstd::prelude::*;
use vstd::std_specs::iter::IteratorSpec;

verus! {

/// Number of characters that a state message holds before its payload: the
/// wrapper of the property and the quote that opens the payload.
pub const PAYLOAD_OFFSET: usize = 6;

/// Whether and how a unit is set up to be started.
#[derive(Clone, Copy, Debug, PartialEq, Eq, Structural)]
pub enum UnitState {
    Bad,
    Disabled,
    Enabled,
    Generated,
    Indirect,
    Linked,
    Masked,
    Static,
    Transient,
}

impl UnitState {
    /// The character that tells this state from the others: the first letter
    /// of the name under which the bus reports it. No two of the nine names
    /// start with the same letter; a tenth name that started like one of them
    /// could not be told from it in this way.
    pub open spec fn discriminator(self) -> char {
        match self {
            UnitState::Bad => 'b',
            UnitState::Disabled => 'd',
            UnitState::Enabled => 'e',
            UnitState::Generated => 'g',
            UnitState::Indirect => 'i',
            UnitState::Linked => 'l',
            UnitState::Masked => 'm',
            UnitState::Static => 's',
            UnitState::Transient => 't',
        }
    }

    /// The state that a first payload character stands for, if any.
    pub open spec fn of_discriminator(c: char) -> Option<UnitState> {
        match c {
            's' => Some(UnitState::Static),
            'd' => Some(UnitState::Disabled),
            'e' => Some(UnitState::Enabled),
            'i' => Some(UnitState::Indirect),
            'l' => Some(UnitState::Linked),
            'm' => Some(UnitState::Masked),
            'b' => Some(UnitState::Bad),
            'g' => Some(UnitState::Generated),
            't' => Some(UnitState::Transient),
            _ => None,
        }
    }

    /// What a state message decodes to: the state that the character at
    /// `PAYLOAD_OFFSET` stands for. A message that ends before that character,
    /// or holds another character there (the closing quote of an empty payload
    /// is one), decodes to no state.
    pub open spec fn decode(message: Seq<char>) -> Result<UnitState, UnitError> {
        if message.len() > PAYLOAD_OFFSET {
            match Self::of_discriminator(message[PAYLOAD_OFFSET as int]) {
                Some(state) => Ok(state),
                None => Err(UnitError::UnrecognizedUnitState),
            }
        } else {
            Err(UnitError::UnrecognizedUnitState)
        }
    }

    /// Decodes the state message that the bus returned for a unit. Of the
    /// payload, the first character alone is read.
    pub fn new(message: &str) -> (state: Result<UnitState, UnitError>)
        ensures
            state == Self::decode(message@),
    {
        let mut rest = message.chars();
        let mut skipped: usize = 0;
        while skipped < PAYLOAD_OFFSET
            invariant
                skipped <= PAYLOAD_OFFSET,
                skipped <= message@.len(),
                rest.remaining() == message@.skip(skipped as int),
            decreases PAYLOAD_OFFSET - skipped,
        {
            if rest.next().is_none() {
                return Err(UnitError::UnrecognizedUnitState);
            }
            skipped = skipped + 1;
        }
        match rest.next() {
            Some(first) => match Self::from_discriminator(first) {
                Some(state) => Ok(state),
                None => Err(UnitError::UnrecognizedUnitState),
            },
            None => Err(UnitError::UnrecognizedUnitState),
        }
    }

    fn from_discriminator(c: char) -> (state: Option<UnitState>)
        ensures
            state == Self::of_discriminator(c),
    {
        match c {
            's' => Some(UnitState::Static),
            'd' => Some(UnitState::Disabled),
            'e' => Some(UnitState::Enabled),
            'i' => Some(UnitState::Indirect),
            'l' => Some(UnitState::Linked),
            'm' => Some(UnitState::Masked),
            'b' => Some(UnitState::Bad),
            'g' => Some(UnitState::Generated),
            't' => Some(UnitState::Transient),
            _ => None,
        }
    }
}

/// A message decodes to a state exactly when it holds that state's
/// discriminator at the payload offset.
pub proof fn decodes_by_discriminator(message: Seq<char>, state: UnitState)
    ensures
        UnitState::decode(message) == Ok::<UnitState, UnitError>(state) <==> message.len()
            > PAYLOAD_OFFSET && message[PAYLOAD_OFFSET as int] == state.discriminator(),
{
}

/// A message that is too short, or that holds the discriminator of no state at
/// the payload offset, is rejected, and with no other error than
/// `UnrecognizedUnitState`.
pub proof fn rejects_other_messages(message: Seq<char>)
    ensures
        UnitState::decode(message) == Err::<UnitState, UnitError>(
            UnitError::UnrecognizedUnitState,
        ) <==> message.len() <= PAYLOAD_OFFSET || forall|state: UnitState|
            message[PAYLOAD_OFFSET as int] != #[trigger] state.discriminator(),
        UnitState::decode(message) is Err ==> UnitState::decode(message) == Err::<
            UnitState,
            UnitError,
        >(UnitError::UnrecognizedUnitState),
{
    if message.len() > PAYLOAD_OFFSET {
        match UnitState::of_discriminator(message[PAYLOAD_OFFSET as int]) {
            Some(state) => {
                assert(message[PAYLOAD_OFFSET as int] == state.discriminator());
            },
            None => {},
        }
    }
}

} // verus!
