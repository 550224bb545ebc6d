//! A program that behaves as it is told, to see a supervisor at work: who may
//! run it, what it is told, what it writes, and how its processes say that
//! they are there.

use vstd::prelude::*;
use vstd::string::*;

use crate::random::random_array;
use crate::text::{
    all_digits, decimal, decimal_text, digits_value, encode_lower_hex, hex_char, is_digit, join,
    lower_hex, same_text,
};

verus! {

/// The longest that the program lives, in milliseconds.
pub const HARD_DEADLINE_MS: u64 = 60_000;

/// The longest that it holds still, in milliseconds.
pub const MAX_HOLD_MS: u64 = 50_000;

pub const DEFAULT_HOLD_MS: u64 = 30_000;

pub const DEFAULT_BYTES_PER_STREAM: u64 = 12 * 1024 * 1024;

pub const MAX_BYTES_PER_STREAM: u64 = 32 * 1024 * 1024;

pub const MAX_AGGREGATE_BYTES: u64 = 64 * 1024 * 1024;

pub const DEFAULT_BYTES_PER_SECOND: u64 = 8 * 1024 * 1024;

pub const MAX_BYTES_PER_SECOND: u64 = 8 * 1024 * 1024;

pub const DEFAULT_LINE_BYTES: u64 = 4 * 1024;

pub const MAX_LINE_BYTES: u64 = 256 * 1024;

pub const MAX_LOG_DURATION_MS: u64 = 50_000;

/// How many arguments are taken, and how long each may be.
pub const MAX_ARGS: usize = 16;

pub const MAX_ARG_BYTES: usize = 128;

/// The most that is written at once.
pub const MAX_WRITE_BYTES: usize = 64 * 1024;

/// The longest line by which a process says that it is there.
pub const MAX_READINESS_BYTES: usize = 256;

/// Why the program ends early.
#[derive(Clone, Copy, Debug, PartialEq, Eq, Structural)]
pub enum FixtureError {
    Authorization,
    InvalidArguments,
    Runtime,
    TimedOut,
}

impl FixtureError {
    /// The code with which the program ends.
    pub open spec fn code(self) -> u8 {
        match self {
            FixtureError::Authorization => 64,
            FixtureError::InvalidArguments => 64,
            FixtureError::Runtime => 70,
            FixtureError::TimedOut => 124,
        }
    }

    pub fn exit_code(self) -> (code: u8)
        ensures
            code == self.code(),
    {
        match self {
            FixtureError::Authorization => 64,
            FixtureError::InvalidArguments => 64,
            FixtureError::Runtime => 70,
            FixtureError::TimedOut => 124,
        }
    }
}

/// A process that the program starts of itself.
#[derive(Clone, Copy, Debug, PartialEq, Eq, Structural)]
pub enum InternalAuthorization {
    ProcessChild,
    ProcessGrandchild,
}

/// Who runs the program: a user with what was asked for, or the program itself.
#[derive(Debug)]
pub enum AuthorizedInvocation {
    External(Vec<String>),
    Internal(InternalAuthorization),
}

/// An argument that is taken: text, not empty and not too long.
pub open spec fn is_argument(argument: Option<String>) -> bool {
    argument is Some && 0 < vstd::utf8::encode_utf8(argument->0@).len() <= MAX_ARG_BYTES
}

/// Takes the arguments in; one that is not text is none.
pub fn collect_arguments(arguments: Vec<Option<String>>) -> (result: Result<Vec<String>, FixtureError>)
    ensures
        match result {
            Ok(texts) => {
                &&& 1 <= arguments@.len() <= MAX_ARGS
                &&& texts@.len() == arguments@.len()
                &&& forall|i: int|
                    0 <= i < arguments@.len() ==> #[trigger] is_argument(arguments@[i])
                        && arguments@[i] == Some(texts@[i])
            },
            Err(error) => error == FixtureError::Authorization && (arguments@.len() == 0
                || arguments@.len() > MAX_ARGS || exists|i: int|
                0 <= i < arguments@.len() && !#[trigger] is_argument(arguments@[i])),
        },
{
    if arguments.len() == 0 || arguments.len() > MAX_ARGS {
        return Err(FixtureError::Authorization);
    }
    let mut texts: Vec<String> = Vec::new();
    let mut i: usize = 0;
    while i < arguments.len()
        invariant
            i <= arguments@.len(),
            1 <= arguments@.len() <= MAX_ARGS,
            texts@.len() == i,
            forall|k: int|
                0 <= k < i ==> #[trigger] is_argument(arguments@[k]) && arguments@[k] == Some(
                    texts@[k],
                ),
        decreases arguments@.len() - i,
    {
        match &arguments[i] {
            Some(text) => {
                let length: usize = text.as_str().as_bytes().len();
                if length == 0 || length > MAX_ARG_BYTES {
                    assert(!is_argument(arguments@[i as int]));
                    return Err(FixtureError::Authorization);
                }
                assert(is_argument(arguments@[i as int]));
                texts.push(text.clone());
            },
            None => {
                assert(!is_argument(arguments@[i as int]));
                return Err(FixtureError::Authorization);
            },
        }
        i += 1;
    }
    Ok(texts)
}

/// The user has said that the program may do what it does.
pub open spec fn is_acknowledged(authorization: Option<String>) -> bool {
    authorization is Some && authorization->0@ == "I_ACKNOWLEDGE_FIXTURE_SIDE_EFFECTS"@
}

/// A text of 64 lower-case hexadecimal digits.
pub open spec fn is_nonce(nonce: Option<String>) -> bool {
    nonce is Some && {
        let bytes = vstd::utf8::encode_utf8(nonce->0@);
        &&& bytes.len() == 64
        &&& forall|i: int| 0 <= i < bytes.len() ==> is_nonce_byte(#[trigger] bytes[i])
    }
}

pub open spec fn is_nonce_byte(byte: u8) -> bool {
    48 <= byte <= 57 || 97 <= byte <= 102
}

/// The process that the program starts of itself, by the arguments that it
/// gives it.
pub open spec fn internal_role(arguments: Seq<String>) -> Option<InternalAuthorization> {
    if arguments.len() == 2 && arguments[0]@ == "--allow-test-fixture"@ {
        if arguments[1]@ == "--internal-process-child"@ {
            Some(InternalAuthorization::ProcessChild)
        } else if arguments[1]@ == "--internal-process-grandchild"@ {
            Some(InternalAuthorization::ProcessGrandchild)
        } else {
            None
        }
    } else {
        None
    }
}

/// The flag by which a user allows the program stands first, and only there.
pub open spec fn is_allowed(arguments: Seq<String>) -> bool {
    &&& arguments.len() > 0
    &&& arguments[0]@ == "--allow-test-fixture"@
    &&& forall|i: int|
        1 <= i < arguments.len() ==> (#[trigger] arguments[i])@ != "--allow-test-fixture"@
}

fn acknowledged(authorization: &Option<String>) -> (yes: bool)
    ensures
        yes == is_acknowledged(*authorization),
{
    match authorization {
        Some(value) => same_text(value.as_str(), "I_ACKNOWLEDGE_FIXTURE_SIDE_EFFECTS"),
        None => false,
    }
}

fn authorize_internal(authorization: &Option<String>, nonce: &Option<String>) -> (result: Result<
    (),
    FixtureError,
>)
    ensures
        result == if is_acknowledged(*authorization) && is_nonce(*nonce) {
            Ok::<(), FixtureError>(())
        } else {
            Err(FixtureError::Authorization)
        },
{
    if !acknowledged(authorization) {
        return Err(FixtureError::Authorization);
    }
    let bytes = match nonce {
        Some(nonce) => nonce.as_str().as_bytes(),
        None => return Err(FixtureError::Authorization),
    };
    if bytes.len() != 64 {
        return Err(FixtureError::Authorization);
    }
    let mut i: usize = 0;
    while i < bytes.len()
        invariant
            i <= bytes@.len(),
            bytes@.len() == 64,
            *nonce is Some,
            bytes@ == vstd::utf8::encode_utf8((*nonce)->0@),
            forall|k: int| 0 <= k < i ==> is_nonce_byte(#[trigger] bytes@[k]),
        decreases bytes@.len() - i,
    {
        let byte: u8 = bytes[i];
        if !(48 <= byte && byte <= 57 || 97 <= byte && byte <= 102) {
            assert(!is_nonce_byte(bytes@[i as int]));
            return Err(FixtureError::Authorization);
        }
        i += 1;
    }
    Ok(())
}

fn authorize_external(arguments: &Vec<String>, authorization: &Option<String>) -> (result: Result<
    AuthorizedInvocation,
    FixtureError,
>)
    requires
        arguments@.len() > 0,
    ensures
        if !is_allowed(arguments@) || !is_acknowledged(*authorization) {
            result == Err::<AuthorizedInvocation, FixtureError>(FixtureError::Authorization)
        } else if arguments@.len() == 1 {
            result == Err::<AuthorizedInvocation, FixtureError>(FixtureError::InvalidArguments)
        } else {
            &&& result is Ok
            &&& result->Ok_0 is External
            &&& result->Ok_0->External_0@ == arguments@.subrange(1, arguments@.len() as int)
        },
{
    if !same_text(arguments[0].as_str(), "--allow-test-fixture") {
        return Err(FixtureError::Authorization);
    }
    let mut rest: Vec<String> = Vec::new();
    let mut i: usize = 1;
    while i < arguments.len()
        invariant
            1 <= i <= arguments@.len(),
            arguments@[0]@ == "--allow-test-fixture"@,
            rest@ == arguments@.subrange(1, i as int),
            forall|k: int|
                1 <= k < i ==> (#[trigger] arguments@[k])@ != "--allow-test-fixture"@,
        decreases arguments@.len() - i,
    {
        if same_text(arguments[i].as_str(), "--allow-test-fixture") {
            assert(arguments@[i as int]@ == "--allow-test-fixture"@);
            return Err(FixtureError::Authorization);
        }
        rest.push(arguments[i].clone());
        i += 1;
        assert(rest@ =~= arguments@.subrange(1, i as int));
    }
    if !acknowledged(authorization) {
        return Err(FixtureError::Authorization);
    }
    if arguments.len() == 1 {
        return Err(FixtureError::InvalidArguments);
    }
    Ok(AuthorizedInvocation::External(rest))
}

/// The arguments as texts.
pub open spec fn argument_texts(arguments: Seq<Option<String>>) -> Seq<String> {
    Seq::new(arguments.len(), |i: int| arguments[i]->0)
}

/// Arguments that are taken: some, not too many, and each text.
pub open spec fn are_arguments(arguments: Seq<Option<String>>) -> bool {
    &&& 1 <= arguments.len() <= MAX_ARGS
    &&& forall|i: int| 0 <= i < arguments.len() ==> #[trigger] is_argument(arguments[i])
}

/// Whether the program may run, and for whom: the user must have allowed it by
/// the first argument and in the environment, and the program itself must show
/// the nonce that it gave to the process.
pub fn authorize(
    arguments: Vec<Option<String>>,
    authorization: &Option<String>,
    nonce: &Option<String>,
) -> (result: Result<AuthorizedInvocation, FixtureError>)
    ensures
        ({
            let texts = argument_texts(arguments@);
            if !are_arguments(arguments@) || !is_acknowledged(*authorization) {
                result == Err::<AuthorizedInvocation, FixtureError>(FixtureError::Authorization)
            } else {
                match internal_role(texts) {
                    Some(role) => result == if is_nonce(*nonce) {
                        Ok::<AuthorizedInvocation, FixtureError>(
                            AuthorizedInvocation::Internal(role),
                        )
                    } else {
                        Err(FixtureError::Authorization)
                    },
                    None => if !is_allowed(texts) {
                        result == Err::<AuthorizedInvocation, FixtureError>(
                            FixtureError::Authorization,
                        )
                    } else if texts.len() == 1 {
                        result == Err::<AuthorizedInvocation, FixtureError>(
                            FixtureError::InvalidArguments,
                        )
                    } else {
                        &&& result is Ok
                        &&& result->Ok_0 is External
                        &&& result->Ok_0->External_0@ == texts.subrange(1, texts.len() as int)
                    },
                }
            }
        }),
{
    let texts = match collect_arguments(arguments) {
        Ok(texts) => texts,
        Err(error) => return Err(error),
    };
    proof {
        assert forall|i: int| 0 <= i < texts@.len() implies #[trigger] texts@[i]
            == argument_texts(arguments@)[i] by {
            assert(is_argument(arguments@[i]));
        }
        assert(texts@ =~= argument_texts(arguments@));
    }
    if texts.len() == 2 && same_text(texts[0].as_str(), "--allow-test-fixture") {
        let role = if same_text(texts[1].as_str(), "--internal-process-child") {
            Some(InternalAuthorization::ProcessChild)
        } else if same_text(texts[1].as_str(), "--internal-process-grandchild") {
            Some(InternalAuthorization::ProcessGrandchild)
        } else {
            None
        };
        if let Some(role) = role {
            return match authorize_internal(authorization, nonce) {
                Ok(_) => Ok(AuthorizedInvocation::Internal(role)),
                Err(error) => Err(error),
            };
        }
    }
    authorize_external(&texts, authorization)
}

/// What becomes of the processes that the program starts.
#[derive(Clone, Copy, Debug, PartialEq, Eq, Structural)]
pub enum ProcessTreeScenario {
    Stable,
    ChildExitsAfterSpawn,
}

/// Where the program listens.
#[derive(Clone, Copy, Debug, PartialEq, Eq, Structural)]
pub enum NetworkAddress {
    Ipv4Loopback,
    Ipv4Unspecified,
    Ipv6Loopback,
    Ipv6Unspecified,
}

/// What bytes the program writes.
#[derive(Clone, Copy, Debug, PartialEq, Eq, Structural)]
pub enum EncodingScenario {
    Utf8Split,
    Utf8Truncated,
    InvalidUtf8,
    Utf16LeBomSplit,
    Utf16BeBomSplit,
    Windows1252,
    AnsiOsc,
}

/// What the program is told to do.
#[derive(Clone, Copy, Debug, PartialEq, Eq, Structural)]
#[allow(inconsistent_fields)]
pub enum Invocation {
    ProcessTree { tree: ProcessTreeScenario, hold_ms: u64 },
    Network { address: NetworkAddress, hold_ms: u64 },
    LogFlood { bytes_per_stream: u64, bytes_per_second: u64, line_bytes: u64 },
    Encoding { encoding: EncodingScenario },
    InternalProcess { role: InternalAuthorization, tree: ProcessTreeScenario, hold_ms: u64 },
}

/// A text begins with two dashes.
pub open spec fn has_dashes(text: Seq<char>) -> bool {
    text.len() >= 2 && text[0] == '-' && text[1] == '-'
}

/// Some arguments are options: names with dashes and values without, and no
/// name twice.
pub open spec fn are_options(rest: Seq<String>) -> bool {
    &&& rest.len() % 2 == 0
    &&& forall|i: int| 0 <= i < rest.len() / 2 ==> #[trigger] is_pair(rest, i)
    &&& forall|i: int, j: int|
        0 <= i < j < rest.len() / 2 ==> #[trigger] name_at(rest, i) != #[trigger] name_at(rest, j)
}

pub open spec fn is_pair(rest: Seq<String>, i: int) -> bool {
    has_dashes(rest[2 * i]@) && !has_dashes(rest[2 * i + 1]@)
}

pub open spec fn name_at(rest: Seq<String>, i: int) -> Seq<char> {
    rest[2 * i]@
}

/// An option stands at a place.
pub open spec fn option_at(rest: Seq<String>, name: Seq<char>, i: int) -> bool {
    0 <= i < rest.len() / 2 && name_at(rest, i) == name
}

/// The value of an option.
pub open spec fn option_of(rest: Seq<String>, name: Seq<char>) -> Option<Seq<char>> {
    if exists|i: int| option_at(rest, name, i) {
        Some(rest[2 * (choose|i: int| option_at(rest, name, i)) + 1]@)
    } else {
        None
    }
}

/// The value of an option, or what it is otherwise.
pub open spec fn option_or(rest: Seq<String>, name: Seq<char>, otherwise: Seq<char>) -> Seq<char> {
    match option_of(rest, name) {
        Some(value) => value,
        None => otherwise,
    }
}

/// Every option is one of some.
pub open spec fn only_options(
    rest: Seq<String>,
    first: Seq<char>,
    second: Seq<char>,
    third: Seq<char>,
) -> bool {
    forall|i: int|
        0 <= i < rest.len() / 2 ==> {
            let name = #[trigger] name_at(rest, i);
            name == first || name == second || name == third
        }
}

fn starts_with_dashes(text: &str) -> (yes: bool)
    ensures
        yes == has_dashes(text@),
{
    text.unicode_len() >= 2 && text.get_char(0) == '-' && text.get_char(1) == '-'
}

fn is_new_name(rest: &Vec<String>, end: usize) -> (new: bool)
    requires
        2 * end + 1 < rest@.len(),
    ensures
        new == forall|k: int| 0 <= k < end ==> #[trigger] name_at(rest@, k) != name_at(
            rest@,
            end as int,
        ),
{
    let total: usize = rest.len();
    let mut k: usize = 0;
    while k < end
        invariant
            k <= end,
            total == rest@.len(),
            2 * end + 1 < total,
            forall|n: int|
                0 <= n < k ==> #[trigger] name_at(rest@, n) != name_at(rest@, end as int),
        decreases end - k,
    {
        if same_text(rest[2 * k].as_str(), rest[2 * end].as_str()) {
            assert(name_at(rest@, k as int) == name_at(rest@, end as int));
            return false;
        }
        k += 1;
    }
    true
}

/// Whether some arguments are options.
pub fn parse_options(rest: &Vec<String>) -> (result: Result<(), FixtureError>)
    ensures
        result == if are_options(rest@) {
            Ok::<(), FixtureError>(())
        } else {
            Err(FixtureError::InvalidArguments)
        },
{
    if rest.len() % 2 != 0 {
        return Err(FixtureError::InvalidArguments);
    }
    let total: usize = rest.len();
    let pairs: usize = total / 2;
    let mut i: usize = 0;
    while i < pairs
        invariant
            i <= pairs,
            rest@.len() % 2 == 0,
            total == rest@.len(),
            pairs == total / 2,
            forall|k: int| 0 <= k < i ==> #[trigger] is_pair(rest@, k),
            forall|a: int, b: int|
                0 <= a < b < i ==> #[trigger] name_at(rest@, a) != #[trigger] name_at(rest@, b),
        decreases pairs - i,
    {
        if !starts_with_dashes(rest[2 * i].as_str()) || starts_with_dashes(rest[2 * i + 1].as_str())
        {
            assert(!is_pair(rest@, i as int));
            return Err(FixtureError::InvalidArguments);
        }
        assert(is_pair(rest@, i as int));
        if !is_new_name(rest, i) {
            proof {
                let k = choose|k: int|
                    0 <= k < i && #[trigger] name_at(rest@, k) == name_at(rest@, i as int);
                assert(name_at(rest@, k) == name_at(rest@, i as int));
            }
            return Err(FixtureError::InvalidArguments);
        }
        i += 1;
    }
    Ok(())
}

fn find_option<'a>(rest: &'a Vec<String>, name: &str, otherwise: &'a str) -> (value: &'a str)
    requires
        are_options(rest@),
    ensures
        value@ == option_or(rest@, name@, otherwise@),
{
    let total: usize = rest.len();
    let pairs: usize = total / 2;
    let mut i: usize = 0;
    while i < pairs
        invariant
            i <= pairs,
            total == rest@.len(),
            pairs == total / 2,
            are_options(rest@),
            forall|k: int| 0 <= k < i ==> #[trigger] name_at(rest@, k) != name@,
        decreases pairs - i,
    {
        if same_text(rest[2 * i].as_str(), name) {
            proof {
                assert(option_at(rest@, name@, i as int));
                let k = choose|k: int| option_at(rest@, name@, k);
                assert(option_at(rest@, name@, k));
                if k != i {
                    assert(name_at(rest@, k) == name_at(rest@, i as int));
                }
            }
            return rest[2 * i + 1].as_str();
        }
        i += 1;
    }
    proof {
        assert forall|k: int| !option_at(rest@, name@, k) by {}
    }
    otherwise
}

fn has_option(rest: &Vec<String>, name: &str) -> (found: bool)
    ensures
        found == exists|i: int| option_at(rest@, name@, i),
{
    let total: usize = rest.len();
    let pairs: usize = total / 2;
    let mut i: usize = 0;
    while i < pairs
        invariant
            i <= pairs,
            total == rest@.len(),
            pairs == total / 2,
            forall|k: int| 0 <= k < i ==> #[trigger] name_at(rest@, k) != name@,
        decreases pairs - i,
    {
        if same_text(rest[2 * i].as_str(), name) {
            assert(option_at(rest@, name@, i as int));
            return true;
        }
        i += 1;
    }
    proof {
        assert forall|k: int| !option_at(rest@, name@, k) by {}
    }
    false
}

fn reject_unknown(rest: &Vec<String>, first: &str, second: &str, third: &str) -> (known: bool)
    ensures
        known == only_options(rest@, first@, second@, third@),
{
    let total: usize = rest.len();
    let pairs: usize = total / 2;
    let mut i: usize = 0;
    while i < pairs
        invariant
            i <= pairs,
            total == rest@.len(),
            pairs == total / 2,
            forall|k: int|
                0 <= k < i ==> {
                    let name = #[trigger] name_at(rest@, k);
                    name == first@ || name == second@ || name == third@
                },
        decreases pairs - i,
    {
        let name = rest[2 * i].as_str();
        if !same_text(name, first) && !same_text(name, second) && !same_text(name, third) {
            assert(name_at(rest@, i as int) == name@);
            return false;
        }
        i += 1;
    }
    true
}

/// A number in decimal digits, within bounds.
pub open spec fn bounded(text: Seq<char>, minimum: u64, maximum: u64) -> Option<u64> {
    if text.len() > 0 && all_digits(text) && minimum <= digits_value(text) <= maximum {
        Some(digits_value(text) as u64)
    } else {
        None
    }
}

/// More digits make no smaller number.
proof fn lemma_digits_grow(text: Seq<char>, n: int)
    requires
        all_digits(text),
        0 <= n <= text.len(),
    ensures
        digits_value(text.subrange(0, n)) <= digits_value(text),
    decreases text.len() - n,
{
    if n < text.len() {
        lemma_digits_grow(text, n + 1);
        let longer = text.subrange(0, n + 1);
        assert(longer.drop_last() =~= text.subrange(0, n));
        assert(is_digit(text[n]));
    } else {
        assert(text.subrange(0, n) =~= text);
    }
}

/// A number in decimal digits, within bounds.
pub fn parse_bounded_u64(text: &str, minimum: u64, maximum: u64) -> (result: Result<
    u64,
    FixtureError,
>)
    ensures
        match bounded(text@, minimum, maximum) {
            Some(value) => result == Ok::<u64, FixtureError>(value),
            None => result == Err::<u64, FixtureError>(FixtureError::InvalidArguments),
        },
{
    let length: usize = text.unicode_len();
    if length == 0 {
        return Err(FixtureError::InvalidArguments);
    }
    let mut i: usize = 0;
    while i < length
        invariant
            i <= length,
            length == text@.len(),
            forall|k: int| 0 <= k < i ==> is_digit(#[trigger] text@[k]),
        decreases length - i,
    {
        let c: char = text.get_char(i);
        if !('0' <= c && c <= '9') {
            assert(!is_digit(text@[i as int]));
            return Err(FixtureError::InvalidArguments);
        }
        i += 1;
    }
    let mut value: u64 = 0;
    let mut j: usize = 0;
    assert(digits_value(text@.subrange(0, 0)) == 0);
    while j < length
        invariant
            j <= length,
            length == text@.len(),
            length > 0,
            all_digits(text@),
            value == digits_value(text@.subrange(0, j as int)),
        decreases length - j,
    {
        let digit: u64 = (text.get_char(j) as u32 - 48) as u64;
        proof {
            let longer = text@.subrange(0, j + 1);
            assert(longer.drop_last() =~= text@.subrange(0, j as int));
            assert(is_digit(text@[j as int]));
            lemma_digits_grow(text@, j + 1);
        }
        let tens: u64 = match value.checked_mul(10) {
            Some(tens) => tens,
            None => return Err(FixtureError::InvalidArguments),
        };
        value =
        match tens.checked_add(digit) {
            Some(sum) => sum,
            None => return Err(FixtureError::InvalidArguments),
        };
        j += 1;
    }
    assert(text@.subrange(0, length as int) =~= text@);
    if value < minimum || value > maximum {
        return Err(FixtureError::InvalidArguments);
    }
    Ok(value)
}

/// A number that an option gives, within bounds, or what it is otherwise.
pub open spec fn number_option(
    rest: Seq<String>,
    name: Seq<char>,
    maximum: u64,
    otherwise: u64,
) -> Option<u64> {
    match option_of(rest, name) {
        Some(text) => bounded(text, 1, maximum),
        None => Some(otherwise),
    }
}

fn parse_number_option(rest: &Vec<String>, name: &str, maximum: u64, otherwise: u64) -> (result:
    Result<u64, FixtureError>)
    requires
        are_options(rest@),
    ensures
        match number_option(rest@, name@, maximum, otherwise) {
            Some(value) => result == Ok::<u64, FixtureError>(value),
            None => result == Err::<u64, FixtureError>(FixtureError::InvalidArguments),
        },
{
    if !has_option(rest, name) {
        return Ok(otherwise);
    }
    let text = find_option(rest, name, "");
    parse_bounded_u64(text, 1, maximum)
}

/// A scenario of processes, by its name.
pub open spec fn tree_of(name: Seq<char>) -> Option<ProcessTreeScenario> {
    if name == "stable"@ {
        Some(ProcessTreeScenario::Stable)
    } else if name == "child-exits-after-spawn"@ {
        Some(ProcessTreeScenario::ChildExitsAfterSpawn)
    } else {
        None
    }
}

fn parse_tree(name: &str) -> (tree: Option<ProcessTreeScenario>)
    ensures
        tree == tree_of(name@),
{
    if same_text(name, "stable") {
        Some(ProcessTreeScenario::Stable)
    } else if same_text(name, "child-exits-after-spawn") {
        Some(ProcessTreeScenario::ChildExitsAfterSpawn)
    } else {
        None
    }
}

/// The name of a scenario of processes.
pub fn process_tree_scenario_name(tree: ProcessTreeScenario) -> (name: &'static str)
    ensures
        tree_of(name@) == Some(tree),
{
    proof {
        reveal_strlit("stable");
        reveal_strlit("child-exits-after-spawn");
    }
    match tree {
        ProcessTreeScenario::Stable => "stable",
        ProcessTreeScenario::ChildExitsAfterSpawn => {
            assert("stable"@.len() != "child-exits-after-spawn"@.len());
            "child-exits-after-spawn"
        },
    }
}

/// What a request for processes means.
pub open spec fn process_tree_of(rest: Seq<String>) -> Option<Invocation> {
    let tree = tree_of(option_or(rest, "--scenario"@, "stable"@));
    let hold = number_option(rest, "--hold-ms"@, MAX_HOLD_MS, DEFAULT_HOLD_MS);
    if tree is Some && hold is Some && only_options(
        rest,
        "--scenario"@,
        "--hold-ms"@,
        "--hold-ms"@,
    ) {
        Some(Invocation::ProcessTree { tree: tree->0, hold_ms: hold->0 })
    } else {
        None
    }
}

fn parse_process_tree(rest: &Vec<String>) -> (result: Result<Invocation, FixtureError>)
    requires
        are_options(rest@),
    ensures
        match process_tree_of(rest@) {
            Some(invocation) => result == Ok::<Invocation, FixtureError>(invocation),
            None => result == Err::<Invocation, FixtureError>(FixtureError::InvalidArguments),
        },
{
    let tree = match parse_tree(find_option(rest, "--scenario", "stable")) {
        Some(tree) => tree,
        None => return Err(FixtureError::InvalidArguments),
    };
    let hold_ms: u64 = match parse_number_option(rest, "--hold-ms", MAX_HOLD_MS, DEFAULT_HOLD_MS) {
        Ok(hold_ms) => hold_ms,
        Err(error) => return Err(error),
    };
    if !reject_unknown(rest, "--scenario", "--hold-ms", "--hold-ms") {
        return Err(FixtureError::InvalidArguments);
    }
    Ok(Invocation::ProcessTree { tree, hold_ms })
}

/// An address, by its name.
pub open spec fn address_of(name: Seq<char>) -> Option<NetworkAddress> {
    if name == "127.0.0.1"@ {
        Some(NetworkAddress::Ipv4Loopback)
    } else if name == "0.0.0.0"@ {
        Some(NetworkAddress::Ipv4Unspecified)
    } else if name == "::1"@ {
        Some(NetworkAddress::Ipv6Loopback)
    } else if name == "::"@ {
        Some(NetworkAddress::Ipv6Unspecified)
    } else {
        None
    }
}

fn parse_address(name: &str) -> (address: Option<NetworkAddress>)
    ensures
        address == address_of(name@),
{
    if same_text(name, "127.0.0.1") {
        Some(NetworkAddress::Ipv4Loopback)
    } else if same_text(name, "0.0.0.0") {
        Some(NetworkAddress::Ipv4Unspecified)
    } else if same_text(name, "::1") {
        Some(NetworkAddress::Ipv6Loopback)
    } else if same_text(name, "::") {
        Some(NetworkAddress::Ipv6Unspecified)
    } else {
        None
    }
}

/// What a request to listen means.
pub open spec fn network_of(rest: Seq<String>) -> Option<Invocation> {
    let address = address_of(option_or(rest, "--address"@, "127.0.0.1"@));
    let hold = number_option(rest, "--hold-ms"@, MAX_HOLD_MS, DEFAULT_HOLD_MS);
    if address is Some && hold is Some && only_options(
        rest,
        "--address"@,
        "--hold-ms"@,
        "--hold-ms"@,
    ) {
        Some(Invocation::Network { address: address->0, hold_ms: hold->0 })
    } else {
        None
    }
}

fn parse_network(rest: &Vec<String>) -> (result: Result<Invocation, FixtureError>)
    requires
        are_options(rest@),
    ensures
        match network_of(rest@) {
            Some(invocation) => result == Ok::<Invocation, FixtureError>(invocation),
            None => result == Err::<Invocation, FixtureError>(FixtureError::InvalidArguments),
        },
{
    let address = match parse_address(find_option(rest, "--address", "127.0.0.1")) {
        Some(address) => address,
        None => return Err(FixtureError::InvalidArguments),
    };
    let hold_ms: u64 = match parse_number_option(rest, "--hold-ms", MAX_HOLD_MS, DEFAULT_HOLD_MS) {
        Ok(hold_ms) => hold_ms,
        Err(error) => return Err(error),
    };
    if !reject_unknown(rest, "--address", "--hold-ms", "--hold-ms") {
        return Err(FixtureError::InvalidArguments);
    }
    Ok(Invocation::Network { address, hold_ms })
}

/// How long both streams take at a rate, in whole milliseconds, rounded up.
pub open spec fn flood_duration_ms(bytes_per_stream: u64, bytes_per_second: u64) -> int {
    (2 * bytes_per_stream * 1_000 + bytes_per_second - 1) / bytes_per_second as int
}

/// What a request to write much means.
pub open spec fn log_flood_of(rest: Seq<String>) -> Option<Invocation> {
    let stream = number_option(
        rest,
        "--bytes-per-stream"@,
        MAX_BYTES_PER_STREAM,
        DEFAULT_BYTES_PER_STREAM,
    );
    let rate = number_option(
        rest,
        "--bytes-per-second"@,
        MAX_BYTES_PER_SECOND,
        DEFAULT_BYTES_PER_SECOND,
    );
    let line = number_option(rest, "--line-bytes"@, MAX_LINE_BYTES, DEFAULT_LINE_BYTES);
    if stream is Some && rate is Some && line is Some && only_options(
        rest,
        "--bytes-per-stream"@,
        "--bytes-per-second"@,
        "--line-bytes"@,
    ) && 2 * stream->0 <= MAX_AGGREGATE_BYTES && flood_duration_ms(stream->0, rate->0)
        <= MAX_LOG_DURATION_MS {
        Some(
            Invocation::LogFlood {
                bytes_per_stream: stream->0,
                bytes_per_second: rate->0,
                line_bytes: line->0,
            },
        )
    } else {
        None
    }
}

fn parse_log_flood(rest: &Vec<String>) -> (result: Result<Invocation, FixtureError>)
    requires
        are_options(rest@),
    ensures
        match log_flood_of(rest@) {
            Some(invocation) => result == Ok::<Invocation, FixtureError>(invocation),
            None => result == Err::<Invocation, FixtureError>(FixtureError::InvalidArguments),
        },
{
    let bytes_per_stream: u64 = match parse_number_option(
        rest,
        "--bytes-per-stream",
        MAX_BYTES_PER_STREAM,
        DEFAULT_BYTES_PER_STREAM,
    ) {
        Ok(value) => value,
        Err(error) => return Err(error),
    };
    let bytes_per_second: u64 = match parse_number_option(
        rest,
        "--bytes-per-second",
        MAX_BYTES_PER_SECOND,
        DEFAULT_BYTES_PER_SECOND,
    ) {
        Ok(value) => value,
        Err(error) => return Err(error),
    };
    let line_bytes: u64 = match parse_number_option(
        rest,
        "--line-bytes",
        MAX_LINE_BYTES,
        DEFAULT_LINE_BYTES,
    ) {
        Ok(value) => value,
        Err(error) => return Err(error),
    };
    if !reject_unknown(rest, "--bytes-per-stream", "--bytes-per-second", "--line-bytes") {
        return Err(FixtureError::InvalidArguments);
    }
    assert(1 <= bytes_per_stream <= MAX_BYTES_PER_STREAM);
    assert(1 <= bytes_per_second <= MAX_BYTES_PER_SECOND);
    let aggregate_bytes: u64 = bytes_per_stream * 2;
    if aggregate_bytes > MAX_AGGREGATE_BYTES {
        return Err(FixtureError::InvalidArguments);
    }
    let duration_ms: u64 = (aggregate_bytes * 1_000 + (bytes_per_second - 1)) / bytes_per_second;
    if duration_ms > MAX_LOG_DURATION_MS {
        return Err(FixtureError::InvalidArguments);
    }
    Ok(Invocation::LogFlood { bytes_per_stream, bytes_per_second, line_bytes })
}

/// A scenario of bytes, by its name.
pub open spec fn encoding_of(name: Seq<char>) -> Option<EncodingScenario> {
    if name == "utf8-split"@ {
        Some(EncodingScenario::Utf8Split)
    } else if name == "utf8-truncated"@ {
        Some(EncodingScenario::Utf8Truncated)
    } else if name == "invalid-utf8"@ {
        Some(EncodingScenario::InvalidUtf8)
    } else if name == "utf16le-bom-split"@ {
        Some(EncodingScenario::Utf16LeBomSplit)
    } else if name == "utf16be-bom-split"@ {
        Some(EncodingScenario::Utf16BeBomSplit)
    } else if name == "windows-1252"@ {
        Some(EncodingScenario::Windows1252)
    } else if name == "ansi-osc"@ {
        Some(EncodingScenario::AnsiOsc)
    } else {
        None
    }
}

/// What a request to write certain bytes means.
pub open spec fn encoding_request_of(rest: Seq<String>) -> Option<Invocation> {
    let encoding = encoding_of(option_or(rest, "--scenario"@, "utf8-split"@));
    if encoding is Some && only_options(rest, "--scenario"@, "--scenario"@, "--scenario"@) {
        Some(Invocation::Encoding { encoding: encoding->0 })
    } else {
        None
    }
}

fn parse_encoding(rest: &Vec<String>) -> (result: Result<Invocation, FixtureError>)
    requires
        are_options(rest@),
    ensures
        match encoding_request_of(rest@) {
            Some(invocation) => result == Ok::<Invocation, FixtureError>(invocation),
            None => result == Err::<Invocation, FixtureError>(FixtureError::InvalidArguments),
        },
{
    let name = find_option(rest, "--scenario", "utf8-split");
    let encoding = if same_text(name, "utf8-split") {
        EncodingScenario::Utf8Split
    } else if same_text(name, "utf8-truncated") {
        EncodingScenario::Utf8Truncated
    } else if same_text(name, "invalid-utf8") {
        EncodingScenario::InvalidUtf8
    } else if same_text(name, "utf16le-bom-split") {
        EncodingScenario::Utf16LeBomSplit
    } else if same_text(name, "utf16be-bom-split") {
        EncodingScenario::Utf16BeBomSplit
    } else if same_text(name, "windows-1252") {
        EncodingScenario::Windows1252
    } else if same_text(name, "ansi-osc") {
        EncodingScenario::AnsiOsc
    } else {
        return Err(FixtureError::InvalidArguments);
    };
    if !reject_unknown(rest, "--scenario", "--scenario", "--scenario") {
        return Err(FixtureError::InvalidArguments);
    }
    Ok(Invocation::Encoding { encoding })
}

/// What a user's request means.
pub open spec fn request_of(arguments: Seq<String>) -> Option<Invocation> {
    if arguments.len() == 0 {
        None
    } else {
        let rest = arguments.subrange(1, arguments.len() as int);
        let command = arguments[0]@;
        if !are_options(rest) {
            None
        } else if command == "process-tree"@ {
            process_tree_of(rest)
        } else if command == "network"@ {
            network_of(rest)
        } else if command == "log-flood"@ {
            log_flood_of(rest)
        } else if command == "encoding"@ {
            encoding_request_of(rest)
        } else {
            None
        }
    }
}

fn parse_external(arguments: &Vec<String>) -> (result: Result<Invocation, FixtureError>)
    ensures
        match request_of(arguments@) {
            Some(invocation) => result == Ok::<Invocation, FixtureError>(invocation),
            None => result == Err::<Invocation, FixtureError>(FixtureError::InvalidArguments),
        },
{
    if arguments.len() == 0 {
        return Err(FixtureError::InvalidArguments);
    }
    let mut rest: Vec<String> = Vec::new();
    let mut i: usize = 1;
    while i < arguments.len()
        invariant
            1 <= i <= arguments@.len(),
            rest@ == arguments@.subrange(1, i as int),
        decreases arguments@.len() - i,
    {
        rest.push(arguments[i].clone());
        i += 1;
        assert(rest@ =~= arguments@.subrange(1, i as int));
    }
    match parse_options(&rest) {
        Ok(_) => {},
        Err(error) => return Err(error),
    }
    let command = arguments[0].as_str();
    if same_text(command, "process-tree") {
        parse_process_tree(&rest)
    } else if same_text(command, "network") {
        parse_network(&rest)
    } else if same_text(command, "log-flood") {
        parse_log_flood(&rest)
    } else if same_text(command, "encoding") {
        parse_encoding(&rest)
    } else {
        Err(FixtureError::InvalidArguments)
    }
}

/// What the program is told to do: by a user through arguments, or by itself
/// through the environment.
pub fn parse(
    authorized: &AuthorizedInvocation,
    internal_scenario: &Option<String>,
    internal_hold_ms: &Option<String>,
) -> (result: Result<Invocation, FixtureError>)
    ensures
        match *authorized {
            AuthorizedInvocation::External(arguments) => match request_of(arguments@) {
                Some(invocation) => result == Ok::<Invocation, FixtureError>(invocation),
                None => result == Err::<Invocation, FixtureError>(FixtureError::InvalidArguments),
            },
            AuthorizedInvocation::Internal(role) => {
                let tree = match *internal_scenario {
                    Some(name) => tree_of(name@),
                    None => None,
                };
                if tree is None || *internal_hold_ms is None {
                    result == Err::<Invocation, FixtureError>(FixtureError::Authorization)
                } else {
                    match bounded((*internal_hold_ms)->0@, 1, MAX_HOLD_MS) {
                        Some(hold_ms) => result == Ok::<Invocation, FixtureError>(
                            Invocation::InternalProcess { role, tree: tree->0, hold_ms },
                        ),
                        None => result == Err::<Invocation, FixtureError>(
                            FixtureError::InvalidArguments,
                        ),
                    }
                }
            },
        },
{
    let role = match authorized {
        AuthorizedInvocation::External(arguments) => return parse_external(arguments),
        AuthorizedInvocation::Internal(role) => *role,
    };
    let tree = match internal_scenario {
        Some(name) => match parse_tree(name.as_str()) {
            Some(tree) => tree,
            None => return Err(FixtureError::Authorization),
        },
        None => return Err(FixtureError::Authorization),
    };
    let text = match internal_hold_ms {
        Some(text) => text,
        None => return Err(FixtureError::Authorization),
    };
    match parse_bounded_u64(text.as_str(), 1, MAX_HOLD_MS) {
        Ok(hold_ms) => Ok(Invocation::InternalProcess { role, tree, hold_ms }),
        Err(error) => Err(error),
    }
}

/// The line that a stream repeats: a prefix as far as it fits, a filling, and
/// the end of the line.
pub open spec fn line_byte(length: int, prefix: Seq<u8>, fill: u8, i: int) -> u8 {
    if i == length - 1 {
        10
    } else if i < prefix.len() {
        prefix[i]
    } else {
        fill
    }
}

pub fn build_line(length: usize, prefix: &[u8], fill: u8) -> (line: Vec<u8>)
    requires
        length > 0,
    ensures
        line@.len() == length,
        forall|i: int|
            0 <= i < length ==> #[trigger] line@[i] == line_byte(length as int, prefix@, fill, i),
{
    let mut line: Vec<u8> = Vec::new();
    let mut i: usize = 0;
    while i < length
        invariant
            i <= length,
            line@.len() == i,
            forall|k: int|
                0 <= k < i ==> #[trigger] line@[k] == line_byte(length as int, prefix@, fill, k),
        decreases length - i,
    {
        let byte: u8 = if i == length - 1 {
            10
        } else if i < prefix.len() {
            prefix[i]
        } else {
            fill
        };
        line.push(byte);
        i += 1;
    }
    line
}

/// How long to wait before the next bytes, so that the rate is kept, in
/// nanoseconds.
pub fn pace(planned_bytes: u64, bytes_per_second: u64, elapsed_nanos: u64) -> (wait: u64)
    requires
        bytes_per_second > 0,
        planned_bytes * 1_000_000_000 / bytes_per_second as int <= u64::MAX,
    ensures
        ({
            let target = planned_bytes * 1_000_000_000 / bytes_per_second as int;
            wait == if target > elapsed_nanos {
                target - elapsed_nanos
            } else {
                0
            }
        }),
{
    let target: u128 = planned_bytes as u128 * 1_000_000_000 / bytes_per_second as u128;
    let target: u64 = target as u64;
    if target > elapsed_nanos {
        target - elapsed_nanos
    } else {
        0
    }
}

/// A line, some times over.
pub open spec fn repeated(line: Seq<u8>, times: nat) -> Seq<u8>
    decreases times,
{
    if times == 0 {
        Seq::empty()
    } else {
        repeated(line, (times - 1) as nat) + line
    }
}

/// A stream under way: what is left of it, what it repeats, and where it stands
/// in that.
#[derive(Debug)]
pub struct StreamState {
    remaining: u64,
    line: Vec<u8>,
    position: usize,
}

/// A stream under way.
pub struct StreamView {
    pub remaining: int,
    pub line: Seq<u8>,
    pub position: int,
}

impl View for StreamState {
    type V = StreamView;

    closed spec fn view(&self) -> StreamView {
        StreamView {
            remaining: self.remaining as int,
            line: self.line@,
            position: self.position as int,
        }
    }
}

impl StreamView {
    pub open spec fn wf(self) -> bool {
        0 <= self.position < self.line.len() && self.remaining >= 0
    }

    /// How many bytes come next.
    pub open spec fn next_length(self) -> int {
        let until_end = self.line.len() - self.position;
        let left = if until_end < self.remaining {
            until_end
        } else {
            self.remaining
        };
        if left < MAX_WRITE_BYTES {
            left
        } else {
            MAX_WRITE_BYTES as int
        }
    }

    /// The bytes that come next.
    pub open spec fn next_bytes(self) -> Seq<u8> {
        self.line.subrange(self.position, self.position + self.next_length())
    }

    /// The stream after some bytes.
    pub open spec fn after(self, length: int) -> StreamView {
        StreamView {
            remaining: self.remaining - length,
            line: self.line,
            position: if self.position + length == self.line.len() {
                0
            } else {
                self.position + length
            },
        }
    }
}

proof fn lemma_repeated_length(line: Seq<u8>, times: nat)
    ensures
        repeated(line, times).len() == line.len() * times,
    decreases times,
{
    if times > 0 {
        lemma_repeated_length(line, (times - 1) as nat);
        assert(line.len() * times == line.len() * ((times - 1) as nat) + line.len())
            by (nonlinear_arith)
            requires
                times > 0,
        ;
    } else {
        assert(line.len() * times == 0) by (nonlinear_arith)
            requires
                times == 0,
        ;
    }
}

impl StreamState {
    /// A stream of so many bytes. A short line is repeated, so that more is
    /// written at once.
    pub fn new(remaining: u64, line: Vec<u8>) -> (stream: Self)
        requires
            line@.len() > 0,
        ensures
            stream@.wf(),
            stream@.remaining == remaining,
            stream@.position == 0,
            stream@.line == if line@.len() < MAX_WRITE_BYTES {
                repeated(line@, (MAX_WRITE_BYTES as nat) / (line@.len() as nat))
            } else {
                line@
            },
    {
        if line.len() >= MAX_WRITE_BYTES {
            return StreamState { remaining, line, position: 0 };
        }
        let times: usize = MAX_WRITE_BYTES / line.len();
        let mut block: Vec<u8> = Vec::new();
        let mut i: usize = 0;
        while i < times
            invariant
                i <= times,
                block@ == repeated(line@, i as nat),
            decreases times - i,
        {
            crate::digest::push_bytes(&mut block, line.as_slice());
            i += 1;
        }
        proof {
            lemma_repeated_length(line@, times as nat);
            vstd::arithmetic::div_mod::lemma_div_non_zero(
                MAX_WRITE_BYTES as int,
                line@.len() as int,
            );
            assert(line@.len() * times > 0) by (nonlinear_arith)
                requires
                    line@.len() > 0,
                    times > 0,
            ;
        }
        StreamState { remaining, line: block, position: 0 }
    }

    pub fn is_complete(&self) -> (complete: bool)
        ensures
            complete == (self@.remaining == 0),
    {
        self.remaining == 0
    }

    /// The bytes that come next; none where the stream is complete.
    pub fn next_chunk(&self) -> (chunk: Option<&[u8]>)
        requires
            self@.wf(),
        ensures
            match chunk {
                Some(chunk) => self@.remaining > 0 && chunk@ == self@.next_bytes() && chunk@.len()
                    > 0,
                None => self@.remaining == 0,
            },
    {
        if self.remaining == 0 {
            return None;
        }
        let until_end: usize = self.line.len() - self.position;
        let mut length: usize = until_end;
        if self.remaining < length as u64 {
            length = self.remaining as usize;
        }
        if length > MAX_WRITE_BYTES {
            length = MAX_WRITE_BYTES;
        }
        Some(
            vstd::slice::slice_subrange(
                self.line.as_slice(),
                self.position,
                self.position + length,
            ),
        )
    }

    /// Some bytes were written.
    pub fn advance(&mut self, length: usize)
        requires
            old(self)@.wf(),
            length <= old(self)@.next_length(),
        ensures
            final(self)@.wf(),
            final(self)@ == old(self)@.after(length as int),
    {
        let total: usize = self.line.len();
        self.remaining = self.remaining - length as u64;
        self.position = self.position + length;
        if self.position == total {
            self.position = 0;
        }
    }

    /// Nobody reads the stream any more.
    pub fn complete(&mut self)
        requires
            old(self)@.wf(),
        ensures
            final(self)@.wf(),
            final(self)@ == (StreamView { remaining: 0, ..old(self)@ }),
    {
        self.remaining = 0;
    }
}

/// What a stream writes is its line over and over: the bytes after those that
/// were written go on where they ended, and begin again at the end of the line.
pub proof fn lemma_stream_repeats_its_line(stream: StreamView, written: int, i: int)
    requires
        stream.wf(),
        stream.position == written % stream.line.len() as int,
        0 <= written,
        0 <= i < stream.next_length(),
    ensures
        stream.next_bytes()[i] == stream.line[(written + i) % stream.line.len() as int],
        stream.after(stream.next_length()).position == (written + stream.next_length())
            % stream.line.len() as int,
{
    let period = stream.line.len() as int;
    let quotient = written / period;
    vstd::arithmetic::div_mod::lemma_fundamental_div_mod(written, period);
    vstd::arithmetic::mul::lemma_mul_is_commutative(period, quotient);
    assert(written + i == quotient * period + (stream.position + i));
    vstd::arithmetic::div_mod::lemma_fundamental_div_mod_converse(
        written + i,
        period,
        quotient,
        stream.position + i,
    );
    let n = stream.next_length();
    if stream.position + n == period {
        assert((quotient + 1) * period == quotient * period + period) by (nonlinear_arith);
        vstd::arithmetic::div_mod::lemma_fundamental_div_mod_converse(
            written + n,
            period,
            quotient + 1,
            0,
        );
    } else {
        vstd::arithmetic::div_mod::lemma_fundamental_div_mod_converse(
            written + n,
            period,
            quotient,
            stream.position + n,
        );
    }
}

/// The secret by which a process of the program is known.
pub fn new_session_nonce() -> (result: Result<String, FixtureError>)
    ensures
        match result {
            Ok(nonce) => exists|bytes: Seq<u8>|
                bytes.len() == 32 && nonce@ == #[trigger] lower_hex(bytes),
            Err(error) => error == FixtureError::Runtime,
        },
{
    match random_array::<32>() {
        Ok(bytes) => {
            let nonce = encode_lower_hex(bytes.as_slice());
            assert(nonce@ == lower_hex(bytes@));
            Ok(nonce)
        },
        Err(_) => Err(FixtureError::Runtime),
    }
}

/// A line by which a process may say that it is there: not too long, ended, and
/// of plain characters.
pub open spec fn is_readiness_line(line: Seq<u8>) -> bool {
    &&& 0 < line.len() <= MAX_READINESS_BYTES
    &&& line.last() == 10
    &&& forall|i: int| 0 <= i < line.len() ==> #[trigger] line[i] < 128 && line[i] != 13
}

/// The line by which a process says that it is there, without its end.
pub fn read_bounded_line(line: &[u8]) -> (result: Result<&[u8], FixtureError>)
    ensures
        match result {
            Ok(text) => is_readiness_line(line@) && text@ == line@.drop_last(),
            Err(error) => !is_readiness_line(line@) && error == FixtureError::Runtime,
        },
{
    if line.len() == 0 || line.len() > MAX_READINESS_BYTES || line[line.len() - 1] != 10 {
        return Err(FixtureError::Runtime);
    }
    let mut i: usize = 0;
    while i < line.len()
        invariant
            i <= line@.len(),
            0 < line@.len() <= MAX_READINESS_BYTES,
            line@.last() == 10,
            forall|k: int| 0 <= k < i ==> #[trigger] line@[k] < 128 && line@[k] != 13,
        decreases line@.len() - i,
    {
        if line[i] >= 128 || line[i] == 13 {
            assert(!(line@[i as int] < 128 && line@[i as int] != 13));
            return Err(FixtureError::Runtime);
        }
        i += 1;
    }
    let text = vstd::slice::slice_subrange(line, 0, line.len() - 1);
    assert(text@ =~= line@.drop_last());
    Ok(text)
}

/// The number that bytes of digits stand for.
pub open spec fn byte_value(bytes: Seq<u8>) -> nat
    decreases bytes.len(),
{
    if bytes.len() == 0 {
        0
    } else {
        (10 * byte_value(bytes.drop_last()) + (bytes.last() - 48)) as nat
    }
}

pub open spec fn are_digits(bytes: Seq<u8>) -> bool {
    forall|i: int| 0 <= i < bytes.len() ==> 48 <= #[trigger] bytes[i] <= 57
}

/// The process that some digits name.
pub open spec fn pid_of(bytes: Seq<u8>) -> Option<u32> {
    if bytes.len() > 0 && are_digits(bytes) && 0 < byte_value(bytes) <= u32::MAX {
        Some(byte_value(bytes) as u32)
    } else {
        None
    }
}

proof fn lemma_bytes_grow(bytes: Seq<u8>, n: int)
    requires
        are_digits(bytes),
        0 <= n <= bytes.len(),
    ensures
        byte_value(bytes.subrange(0, n)) <= byte_value(bytes),
    decreases bytes.len() - n,
{
    if n < bytes.len() {
        lemma_bytes_grow(bytes, n + 1);
        let longer = bytes.subrange(0, n + 1);
        assert(longer.drop_last() =~= bytes.subrange(0, n));
        assert(48 <= bytes[n] <= 57);
    } else {
        assert(bytes.subrange(0, n) =~= bytes);
    }
}

/// The process that some digits name.
pub fn parse_pid(bytes: &[u8]) -> (pid: Option<u32>)
    ensures
        pid == pid_of(bytes@),
{
    if bytes.len() == 0 {
        return None;
    }
    let mut i: usize = 0;
    while i < bytes.len()
        invariant
            i <= bytes@.len(),
            forall|k: int| 0 <= k < i ==> 48 <= #[trigger] bytes@[k] <= 57,
        decreases bytes@.len() - i,
    {
        if bytes[i] < 48 || bytes[i] > 57 {
            assert(!(48 <= bytes@[i as int] <= 57));
            return None;
        }
        i += 1;
    }
    let mut value: u32 = 0;
    let mut j: usize = 0;
    assert(byte_value(bytes@.subrange(0, 0)) == 0);
    while j < bytes.len()
        invariant
            j <= bytes@.len(),
            bytes@.len() > 0,
            are_digits(bytes@),
            value == byte_value(bytes@.subrange(0, j as int)),
        decreases bytes@.len() - j,
    {
        assert(48 <= bytes@[j as int] <= 57);
        let digit: u32 = (bytes[j] - 48) as u32;
        proof {
            let longer = bytes@.subrange(0, j + 1);
            assert(longer.drop_last() =~= bytes@.subrange(0, j as int));
            lemma_bytes_grow(bytes@, j + 1);
        }
        let tens: u32 = match value.checked_mul(10) {
            Some(tens) => tens,
            None => return None,
        };
        value =
        match tens.checked_add(digit) {
            Some(sum) => sum,
            None => return None,
        };
        j += 1;
    }
    assert(bytes@.subrange(0, bytes@.len() as int) =~= bytes@);
    if value == 0 {
        None
    } else {
        Some(value)
    }
}

/// What stands behind the beginning of a line.
fn strip_prefix<'a>(line: &'a [u8], prefix: &str) -> (rest: Option<&'a [u8]>)
    ensures
        match rest {
            Some(rest) => line@ == vstd::utf8::encode_utf8(prefix@) + rest@,
            None => forall|rest: Seq<u8>|
                line@ != #[trigger] (vstd::utf8::encode_utf8(prefix@) + rest),
        },
{
    let head = prefix.as_bytes();
    if line.len() < head.len() {
        return None;
    }
    let mut i: usize = 0;
    while i < head.len()
        invariant
            i <= head@.len() <= line@.len(),
            head@ == vstd::utf8::encode_utf8(prefix@),
            forall|k: int| 0 <= k < i ==> #[trigger] line@[k] == head@[k],
        decreases head@.len() - i,
    {
        if line[i] != head[i] {
            proof {
                assert forall|rest: Seq<u8>| line@ != #[trigger] (vstd::utf8::encode_utf8(prefix@)
                    + rest) by {
                    assert((head@ + rest)[i as int] == head@[i as int]);
                }
            }
            return None;
        }
        i += 1;
    }
    let rest = vstd::slice::slice_subrange(line, head.len(), line.len());
    assert(line@ =~= head@ + rest@);
    Some(rest)
}

/// A line says that a process is there, and which one it has started.
pub open spec fn is_child_line(line: Seq<u8>, child: Seq<u8>, grandchild: Seq<u8>) -> bool {
    line == vstd::utf8::encode_utf8("MAGICTOOLS_TEST_FIXTURE_CHILD_READY:"@) + (child + seq![58u8]
        + grandchild)
}

/// Which process is there, and which one it has started.
pub fn parse_child_readiness(line: &[u8]) -> (result: Result<(u32, u32), FixtureError>)
    ensures
        match result {
            Ok((child_pid, grandchild_pid)) => exists|child: Seq<u8>, grandchild: Seq<u8>|
                #[trigger] is_child_line(line@, child, grandchild) && pid_of(child) == Some(
                    child_pid,
                ) && pid_of(grandchild) == Some(grandchild_pid),
            Err(error) => error == FixtureError::Runtime && forall|
                child: Seq<u8>,
                grandchild: Seq<u8>,
            |
                #[trigger] is_child_line(line@, child, grandchild) ==> pid_of(child) is None
                    || pid_of(grandchild) is None,
        },
{
    let payload = match strip_prefix(line, "MAGICTOOLS_TEST_FIXTURE_CHILD_READY:") {
        Some(payload) => payload,
        None => return Err(FixtureError::Runtime),
    };
    let ghost head = vstd::utf8::encode_utf8("MAGICTOOLS_TEST_FIXTURE_CHILD_READY:"@);
    let mut at: usize = 0;
    while at < payload.len() && payload[at] != 58
        invariant
            at <= payload@.len(),
            forall|k: int| 0 <= k < at ==> #[trigger] payload@[k] != 58,
        decreases payload@.len() - at,
    {
        at += 1;
    }
    proof {
        // Digits hold no colon, so the first colon parts the line.
        assert forall|child: Seq<u8>, grandchild: Seq<u8>| #[trigger]
            is_child_line(line@, child, grandchild) && pid_of(child) is Some implies at
            < payload@.len() && child == payload@.subrange(0, at as int) && grandchild
            == payload@.subrange(at + 1, payload@.len() as int) by {
            let tail = child + seq![58u8] + grandchild;
            assert(payload@ =~= line@.subrange(head.len() as int, line@.len() as int));
            assert(tail =~= line@.subrange(head.len() as int, line@.len() as int));
            assert(payload@[child.len() as int] == 58);
            if at < child.len() {
                assert(48 <= child[at as int] <= 57);
                assert(payload@[at as int] == child[at as int]);
            }
            assert(at == child.len());
            assert(child =~= payload@.subrange(0, at as int));
            assert(grandchild =~= payload@.subrange(at + 1, payload@.len() as int));
        }
    }
    if at == payload.len() {
        return Err(FixtureError::Runtime);
    }
    let first = vstd::slice::slice_subrange(payload, 0, at);
    let second = vstd::slice::slice_subrange(payload, at + 1, payload.len());
    proof {
        assert(payload@ =~= first@ + seq![58u8] + second@);
        assert(is_child_line(line@, first@, second@));
    }
    match (parse_pid(first), parse_pid(second)) {
        (Some(child_pid), Some(grandchild_pid)) => Ok((child_pid, grandchild_pid)),
        _ => Err(FixtureError::Runtime),
    }
}

/// Which process of the third generation is there.
pub fn parse_grandchild_readiness(line: &[u8]) -> (result: Result<u32, FixtureError>)
    ensures
        match result {
            Ok(pid) => exists|digits: Seq<u8>|
                line@ == #[trigger] (vstd::utf8::encode_utf8(
                    "MAGICTOOLS_TEST_FIXTURE_GRANDCHILD_READY:"@,
                ) + digits) && pid_of(digits) == Some(pid),
            Err(error) => error == FixtureError::Runtime && forall|digits: Seq<u8>|
                line@ == #[trigger] (vstd::utf8::encode_utf8(
                    "MAGICTOOLS_TEST_FIXTURE_GRANDCHILD_READY:"@,
                ) + digits) ==> pid_of(digits) is None,
        },
{
    let payload = match strip_prefix(line, "MAGICTOOLS_TEST_FIXTURE_GRANDCHILD_READY:") {
        Some(payload) => payload,
        None => return Err(FixtureError::Runtime),
    };
    let ghost head = vstd::utf8::encode_utf8("MAGICTOOLS_TEST_FIXTURE_GRANDCHILD_READY:"@);
    proof {
        assert forall|digits: Seq<u8>| line@ == #[trigger] (head + digits) implies digits
            == payload@ by {
            assert(digits =~= line@.subrange(head.len() as int, line@.len() as int));
            assert(payload@ =~= line@.subrange(head.len() as int, line@.len() as int));
        }
    }
    match parse_pid(payload) {
        Some(pid) => Ok(pid),
        None => Err(FixtureError::Runtime),
    }
}

/// The line by which a process says that it is there, and which one it has
/// started.
pub fn child_readiness(child_pid: u32, grandchild_pid: u32) -> (line: String)
    ensures
        line@ == "MAGICTOOLS_TEST_FIXTURE_CHILD_READY:"@ + decimal_text(child_pid as nat) + ":"@
            + decimal_text(grandchild_pid as nat),
{
    join(
        join(
            join(
                "MAGICTOOLS_TEST_FIXTURE_CHILD_READY:",
                decimal(child_pid as u64).as_str(),
            ).as_str(),
            ":",
        ).as_str(),
        decimal(grandchild_pid as u64).as_str(),
    )
}

/// What came of asking a process for its end.
#[derive(Clone, Copy, Debug, PartialEq, Eq, Structural)]
pub enum ExitPoll {
    Running,
    Exited { success: bool },
    Failed,
}

/// What to do about the end of a process.
#[derive(Clone, Copy, Debug)]
pub enum ExitStep {
    /// Ask again later.
    Wait,
    /// It took too long: end it, and give up.
    Terminate,
    Done(Result<(), FixtureError>),
}

/// A process must end well and in time.
pub fn expect_successful_exit(poll: ExitPoll, past_deadline: bool) -> (step: ExitStep)
    ensures
        step == match poll {
            ExitPoll::Failed => ExitStep::Done(Err(FixtureError::Runtime)),
            ExitPoll::Exited { success } => ExitStep::Done(
                if success {
                    Ok(())
                } else {
                    Err(FixtureError::Runtime)
                },
            ),
            ExitPoll::Running => if past_deadline {
                ExitStep::Terminate
            } else {
                ExitStep::Wait
            },
        },
{
    match poll {
        ExitPoll::Failed => ExitStep::Done(Err(FixtureError::Runtime)),
        ExitPoll::Exited { success } => if success {
            ExitStep::Done(Ok(()))
        } else {
            ExitStep::Done(Err(FixtureError::Runtime))
        },
        ExitPoll::Running => if past_deadline {
            ExitStep::Terminate
        } else {
            ExitStep::Wait
        },
    }
}

proof fn lemma_decimal_bytes(n: nat)
    ensures
        vstd::utf8::is_ascii_chars(decimal_text(n)),
        are_digits(vstd::utf8::encode_utf8(decimal_text(n))),
        byte_value(vstd::utf8::encode_utf8(decimal_text(n))) == n,
        vstd::utf8::encode_utf8(decimal_text(n)).len() > 0,
    decreases n,
{
    let text = decimal_text(n);
    if n < 10 {
        assert(text[0] == hex_char(n as int));
        assert(vstd::utf8::is_ascii_chars(text));
        vstd::utf8::is_ascii_chars_encode_utf8(text);
        let bytes = vstd::utf8::encode_utf8(text);
        assert(bytes[0] == (48 + n) as u8);
        assert(bytes.drop_last().len() == 0);
        assert(byte_value(bytes.drop_last()) == 0);
    } else {
        lemma_decimal_bytes(n / 10);
        let rest = decimal_text(n / 10);
        assert(text == rest.push(hex_char((n % 10) as int)));
        assert(vstd::utf8::is_ascii_chars(text));
        vstd::utf8::is_ascii_chars_encode_utf8(text);
        vstd::utf8::is_ascii_chars_encode_utf8(rest);
        let bytes = vstd::utf8::encode_utf8(text);
        let shorter = vstd::utf8::encode_utf8(rest);
        assert(bytes.drop_last() =~= shorter) by {
            assert forall|i: int| 0 <= i < shorter.len() implies bytes[i] == shorter[i] by {
                assert(text[i] == rest[i]);
            }
        }
        assert(text.last() == hex_char((n % 10) as int));
        assert(bytes.last() == (48 + n % 10) as u8);
        assert forall|i: int| 0 <= i < bytes.len() implies 48 <= #[trigger] bytes[i] <= 57 by {
            if i < shorter.len() {
                assert(bytes[i] == shorter[i]);
            }
        }
    }
}

/// What a process says of itself is understood: the digits of its number name
/// it, and no other process.
pub proof fn lemma_pid_round_trip(pid: u32)
    requires
        pid > 0,
    ensures
        pid_of(vstd::utf8::encode_utf8(decimal_text(pid as nat))) == Some(pid),
{
    lemma_decimal_bytes(pid as nat);
}

} // verus!
