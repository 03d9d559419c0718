//! Argument interpretation: from the declared call-time arguments to a
//! single resolved instant, or a definitive failure with its exact
//! message.

use vstd::prelude::*;
use vstd::string::StringExecFns;
use crate::codec;
use crate::trusted;

verus! {

/// One call-time argument as the host hands it over: the null value, or a
/// text payload.
#[derive(Debug, Clone)]
pub enum ArgumentValue {
    Null,
    Text(String),
}

/// The single point in time that seeds identifier generation: the wall
/// clock captured at generation time, or an instant in milliseconds since
/// the Unix epoch derived from a parsed date string.
#[derive(Debug, Clone, Copy, PartialEq, Eq, Structural)]
pub enum ResolvedInstant {
    Now,
    At(u64),
}

/// The two initialization failures: a wrong argument count, reported with
/// the count received, and a date string the parser could not interpret.
#[derive(Debug, Clone, Copy, PartialEq, Eq, Structural)]
pub enum InitError {
    WrongArity(usize),
    UnparseableDate,
}

/// A parsed instant clipped to the identifier's time domain: instants
/// before the Unix epoch become the epoch itself.
pub open spec fn spec_clamp_millis(ms: i64) -> u64 {
    if ms < 0 {
        0
    } else {
        ms as u64
    }
}

/// The decimal rendering of a number, most significant digit first, no
/// leading zeros.
pub open spec fn spec_decimal(n: nat) -> Seq<char>
    decreases n,
{
    if n < 10 {
        seq![codec::spec_char_of(n as int)]
    } else {
        spec_decimal(n / 10).push(codec::spec_char_of((n % 10) as int))
    }
}

/// The exact message each failure reports to the host.
pub open spec fn spec_message(e: InitError) -> Seq<char> {
    match e {
        InitError::WrongArity(n) => "expected 0 or 1 argument; got "@ + spec_decimal(n as nat),
        InitError::UnparseableDate => "unable to parse date format"@,
    }
}

/// The digit sequence `ds`, collected least significant first, read back
/// most significant first as characters.
spec fn rev_chars(ds: Seq<u8>) -> Seq<char> {
    Seq::new(ds.len(), |i: int| codec::spec_char_of(ds[ds.len() - 1 - i] as int))
}

/// Renders a number in decimal.
pub fn decimal_string(n: usize) -> (r: String)
    ensures
        r@ == spec_decimal(n as nat),
{
    let mut digs: Vec<u8> = Vec::new();
    let mut x: usize = n;
    digs.push((x % 10) as u8);
    x = x / 10;
    proof {
        assert(rev_chars(digs@) =~= seq![codec::spec_char_of((n % 10) as int)]);
        if n < 10 {
            assert(spec_decimal(n as nat) =~= rev_chars(digs@));
        } else {
            assert(spec_decimal(n as nat) =~= spec_decimal((n / 10) as nat) + rev_chars(digs@));
        }
    }
    while x > 0
        invariant
            digs@.len() >= 1,
            forall|k: int| 0 <= k < digs@.len() ==> digs@[k] < 10,
            x == 0 ==> spec_decimal(n as nat) =~= rev_chars(digs@),
            x > 0 ==> spec_decimal(n as nat) =~= spec_decimal(x as nat) + rev_chars(digs@),
        decreases x,
    {
        let ghost before = digs@;
        let ghost xv = x as nat;
        digs.push((x % 10) as u8);
        x = x / 10;
        proof {
            assert(rev_chars(digs@) =~= seq![codec::spec_char_of((xv % 10) as int)] + rev_chars(
                before,
            ));
            if xv < 10 {
                assert(spec_decimal(xv) =~= seq![codec::spec_char_of((xv % 10) as int)]);
                assert(spec_decimal(n as nat) =~= rev_chars(digs@));
            } else {
                assert(spec_decimal(xv) =~= spec_decimal(xv / 10).push(
                    codec::spec_char_of((xv % 10) as int),
                ));
                assert(spec_decimal(xv / 10) + seq![codec::spec_char_of((xv % 10) as int)]
                    =~= spec_decimal(xv));
                assert(spec_decimal(n as nat) =~= spec_decimal(x as nat) + rev_chars(digs@));
            }
        }
    }
    let ghost target = spec_decimal(n as nat);
    let len = digs.len();
    let mut r = String::new();
    let mut i: usize = 0;
    proof {
        assert(r@ =~= target.subrange(0, 0));
    }
    while i < len
        invariant
            len == digs@.len(),
            i <= len,
            forall|k: int| 0 <= k < digs@.len() ==> digs@[k] < 10,
            target == spec_decimal(n as nat),
            target =~= rev_chars(digs@),
            r@ =~= target.subrange(0, i as int),
        decreases len - i,
    {
        let cs = codec::digit_str(digs[len - 1 - i]);
        r.append(cs);
        proof {
            assert(target[i as int] == codec::spec_char_of(digs@[len - 1 - i] as int));
            assert(r@ =~= target.subrange(0, i + 1));
        }
        i += 1;
    }
    proof {
        assert(target.subrange(0, target.len() as int) =~= target);
    }
    r
}

impl InitError {
    /// The message this failure reports, exactly as the host shows it.
    pub fn message(&self) -> (r: String)
        ensures
            r@ == spec_message(*self),
    {
        match self {
            InitError::WrongArity(n) => {
                let mut s = String::from_str("expected 0 or 1 argument; got ");
                let d = decimal_string(*n);
                s.append(d.as_str());
                s
            },
            InitError::UnparseableDate => String::from_str("unable to parse date format"),
        }
    }
}

/// Resolves the declared arguments to one instant: no argument and a null
/// argument mean the wall clock at generation time; a text argument is
/// parsed as a date; two or more arguments are rejected before any is
/// inspected.
pub fn resolve(args: &Vec<ArgumentValue>) -> (r: Result<ResolvedInstant, InitError>)
    ensures
        args@.len() == 0 ==> r == Ok::<ResolvedInstant, InitError>(ResolvedInstant::Now),
        args@.len() == 1 && args@[0] is Null ==> r == Ok::<ResolvedInstant, InitError>(
            ResolvedInstant::Now,
        ),
        args@.len() == 1 ==> (args@[0] matches ArgumentValue::Text(s) ==> (match trusted::parse_millis_of(
            s@,
        ) {
            Option::None => r == Err::<ResolvedInstant, InitError>(InitError::UnparseableDate),
            Option::Some(ms) => r == Ok::<ResolvedInstant, InitError>(
                ResolvedInstant::At(spec_clamp_millis(ms)),
            ),
        })),
        args@.len() >= 2 ==> r == Err::<ResolvedInstant, InitError>(
            InitError::WrongArity(args@.len() as usize),
        ),
{
    if args.len() == 0 {
        Ok(ResolvedInstant::Now)
    } else if args.len() == 1 {
        match &args[0] {
            ArgumentValue::Null => Ok(ResolvedInstant::Now),
            ArgumentValue::Text(s) => {
                match trusted::parse_date_millis(s.as_str()) {
                    None => Err(InitError::UnparseableDate),
                    Some(ms) => {
                        if ms < 0 {
                            Ok(ResolvedInstant::At(0))
                        } else {
                            Ok(ResolvedInstant::At(ms as u64))
                        }
                    },
                }
            },
        }
    } else {
        Err(InitError::WrongArity(args.len()))
    }
}

} // verus!
