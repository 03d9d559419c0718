//! Per-invocation state: one identifier value, fixed at initialization,
//! returned as the same 26-character string by every production call.

use vstd::prelude::*;
use crate::args::{ArgumentValue, InitError, ResolvedInstant, spec_clamp_millis, spec_message};
use crate::args;
use crate::codec;
use crate::trusted;

verus! {

/// The opaque state the host keeps between initialization and production:
/// the 128-bit identifier value and its encoding, both computed once.
pub struct UlidHandle {
    value: u128,
    text: String,
}

impl UlidHandle {
    /// The 128-bit identifier value this handle produces.
    pub closed spec fn spec_value(&self) -> u128 {
        self.value
    }

    /// The stored text is exactly the encoding of the stored value;
    /// every handle satisfies this from construction on.
    #[verifier::type_invariant]
    spec fn wf(&self) -> bool {
        self.text@ == codec::spec_encode(self.value)
    }

    /// Builds the handle for one resolved instant: the identifier value is
    /// seeded from the instant (or the wall clock for `Now`) and encoded
    /// once.
    fn generate(instant: ResolvedInstant) -> (h: UlidHandle)
        ensures
            instant matches ResolvedInstant::At(ms) ==> codec::spec_timestamp(h.spec_value())
                == ms & 0xFFFF_FFFF_FFFF,
    {
        let value = match instant {
            ResolvedInstant::Now => trusted::ulid_value_now(),
            ResolvedInstant::At(ms) => {
                let v = trusted::ulid_value_from_millis(ms);
                proof {
                    assert(ms & 0xFFFF_FFFF_FFFF <= 0xFFFF_FFFF_FFFF) by (bit_vector);
                }
                v
            },
        };
        let text = codec::encode(value);
        UlidHandle { value, text }
    }

    /// Initialization: resolves the declared arguments, seeds the
    /// identifier, and renders every failure as its exact message.
    pub fn init(args: &Vec<ArgumentValue>) -> (r: Result<UlidHandle, String>)
        ensures
            args@.len() == 0 ==> r is Ok,
            args@.len() == 1 && args@[0] is Null ==> r is Ok,
            args@.len() == 1 ==> (args@[0] matches ArgumentValue::Text(s) ==> (
            match trusted::parse_millis_of(s@) {
                Option::None => r matches Err(m) && m@ == spec_message(
                    InitError::UnparseableDate,
                ),
                Option::Some(ms) => r matches Ok(h) && codec::spec_timestamp(h.spec_value())
                    == spec_clamp_millis(ms) & 0xFFFF_FFFF_FFFF,
            })),
            args@.len() >= 2 ==> (r matches Err(m) && m@ == spec_message(
                InitError::WrongArity(args@.len() as usize),
            )),
    {
        match args::resolve(args) {
            Ok(instant) => Ok(UlidHandle::generate(instant)),
            Err(e) => Err(e.message()),
        }
    }

    /// Production: returns the memoized 26-character encoding; never
    /// fails and never re-samples time or randomness. Timestamp fidelity
    /// rides along: the returned text decodes to exactly the handle's
    /// value, so the timestamp read back from it is the timestamp the
    /// handle was seeded with.
    pub fn process(&self) -> (r: String)
        ensures
            r@ == codec::spec_encode(self.spec_value()),
            r@.len() == 26,
            codec::spec_decode(r@) == Some(self.spec_value()),
    {
        proof {
            use_type_invariant(self);
            codec::lemma_encode_rec_len(self.value as int, 26);
            codec::lemma_round_trip(self.value);
        }
        self.text.clone()
    }
}

} // verus!
