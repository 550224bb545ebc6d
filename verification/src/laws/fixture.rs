//! What the test program is for: it does nothing that it was not allowed and told to do, it
//! stays within its limits, and it writes exactly what it was to write.

use vstd::prelude::*;

use crate::fixture::{
    are_options, authorize, build_line, collect_arguments, flood_duration_ms, pace, parse,
    parse_bounded_u64, parse_options, parse_pid, read_bounded_line, AuthorizedInvocation,
    FixtureError, InternalAuthorization, Invocation, NetworkAddress, StreamState, StreamView,
};
use crate::fixture_output::{network_readiness, parts_of, payload_bytes, total_of};
use crate::text::{all_digits, digits_value};

verus! {

/// The test program does something only where it was allowed to in both ways, by its first
/// argument and by its environment; as one of its own processes only with a nonce of 64
/// digits as well. It then gets its other arguments as they came.
pub proof fn lemma_test_program_has_to_be_allowed(
    arguments: Vec<Option<String>>,
    authorization: Option<String>,
    nonce: Option<String>,
    result: Result<AuthorizedInvocation, FixtureError>,
)
    requires
        call_ensures(authorize, (arguments, &authorization, &nonce), result),
    ensures
        result is Ok ==> {
            &&& authorization is Some && authorization->0@ == "I_ACKNOWLEDGE_FIXTURE_SIDE_EFFECTS"@
            &&& 2 <= arguments@.len() <= 16
            &&& arguments@[0] is Some && arguments@[0]->0@ == "--allow-test-fixture"@
            &&& forall|i: int|
                0 <= i < arguments@.len() ==> (#[trigger] arguments@[i]) is Some && 0
                    < vstd::utf8::encode_utf8(arguments@[i]->0@).len() <= 128
        },
        result matches Ok(AuthorizedInvocation::Internal(role)) ==> {
            &&& arguments@.len() == 2 && nonce is Some
            &&& vstd::utf8::encode_utf8(nonce->0@).len() == 64
            &&& role == InternalAuthorization::ProcessChild ==> arguments@[1]->0@
                == "--internal-process-child"@
            &&& role == InternalAuthorization::ProcessGrandchild ==> arguments@[1]->0@
                == "--internal-process-grandchild"@
        },
        result matches Ok(AuthorizedInvocation::External(told)) ==> {
            &&& told@.len() == arguments@.len() - 1
            &&& forall|i: int|
                0 <= i < told@.len() ==> Some(#[trigger] told@[i]) == arguments@[i + 1]
        },
        result matches Err(error) ==> error == FixtureError::Authorization || error
            == FixtureError::InvalidArguments,
        result == Err::<AuthorizedInvocation, FixtureError>(FixtureError::InvalidArguments)
            ==> arguments@.len() == 1,
{
    let texts = crate::fixture::argument_texts(arguments@);
    if result is Ok {
        assert forall|i: int| 0 <= i < arguments@.len() implies (#[trigger] arguments@[i]) is Some
            && 0 < vstd::utf8::encode_utf8(arguments@[i]->0@).len() <= 128 by {
            assert(crate::fixture::is_argument(arguments@[i]));
        }
        assert(texts[0] == arguments@[0]->0);
        if let Ok(AuthorizedInvocation::External(told)) = result {
            assert forall|i: int| 0 <= i < told@.len() implies Some(#[trigger] told@[i])
                == arguments@[i + 1] by {
                assert(told@[i] == texts[i + 1]);
                assert(arguments@[i + 1] is Some);
            }
        } else {
            assert(texts[1] == arguments@[1]->0);
        }
    }
}

/// Whatever the test program is told, it stays within its limits: it holds for a millisecond
/// to fifty seconds, floods at most 64 mebibytes in lines of at most a quarter of one, and
/// is done flooding within fifty seconds.
pub proof fn lemma_test_program_stays_within_its_limits(
    authorized: AuthorizedInvocation,
    scenario: Option<String>,
    hold: Option<String>,
    result: Result<Invocation, FixtureError>,
)
    requires
        call_ensures(parse, (&authorized, &scenario, &hold), result),
    ensures
        result matches Ok(Invocation::ProcessTree { hold_ms, .. }) ==> 1 <= hold_ms <= 50_000,
        result matches Ok(Invocation::Network { hold_ms, .. }) ==> 1 <= hold_ms <= 50_000,
        result matches Ok(Invocation::InternalProcess { hold_ms, .. }) ==> 1 <= hold_ms <= 50_000,
        result matches Ok(Invocation::LogFlood { bytes_per_stream, bytes_per_second, line_bytes })
            ==> {
            &&& 1 <= bytes_per_stream && 2 * bytes_per_stream <= 67_108_864
            &&& 1 <= bytes_per_second <= 8_388_608 && 1 <= line_bytes <= 262_144
            &&& 2 * bytes_per_stream * 1_000 <= 50_000 * bytes_per_second
        },
        result is Ok ==> (authorized is Internal <==> result->Ok_0 is InternalProcess),
        (authorized matches AuthorizedInvocation::Internal(role) ==> (result
            matches Ok(Invocation::InternalProcess { role: kept, .. }) ==> kept == role)),
        result is Err && authorized is External ==> result->Err_0
            == FixtureError::InvalidArguments,
        authorized is Internal && (scenario is None || hold is None) ==> result == Err::<
            Invocation,
            FixtureError,
        >(FixtureError::Authorization),
{
    if let Ok(Invocation::LogFlood { bytes_per_stream, bytes_per_second, line_bytes }) = result {
        let top = 2 * bytes_per_stream * 1_000 + bytes_per_second - 1;
        let rate = bytes_per_second as int;
        assert(flood_duration_ms(bytes_per_stream, bytes_per_second) == top / rate);
        vstd::arithmetic::div_mod::lemma_fundamental_div_mod(top, rate);
        assert(rate * (top / rate) <= rate * 50_000) by (nonlinear_arith)
            requires
                top / rate <= 50_000,
                rate > 0,
        ;
    }
}

/// A number is taken exactly where it is written in digits and lies within its bounds, and
/// as it was written.
pub proof fn lemma_number_is_taken_within_its_bounds(
    text: &str,
    minimum: u64,
    maximum: u64,
    result: Result<u64, FixtureError>,
)
    requires
        call_ensures(parse_bounded_u64, (text, minimum, maximum), result),
    ensures
        result is Ok ==> minimum <= result->Ok_0 <= maximum && result->Ok_0 == digits_value(text@),
        result is Ok <==> text@.len() > 0 && all_digits(text@) && minimum <= digits_value(text@)
            <= maximum,
        result is Err ==> result->Err_0 == FixtureError::InvalidArguments,
{
}

/// Options come in pairs of a name and a value, and no name comes twice.
pub proof fn lemma_options_come_in_pairs(
    rest: Vec<String>,
    result: Result<(), FixtureError>,
    i: int,
    j: int,
)
    requires
        call_ensures(parse_options, (&rest,), result),
        result is Ok,
        0 <= i < j < rest@.len() / 2,
    ensures
        rest@.len() % 2 == 0,
        rest@[2 * i]@.len() >= 2 && rest@[2 * i]@[0] == '-' && rest@[2 * i]@[1] == '-',
        rest@[2 * i]@ != rest@[2 * j]@,
{
    assert(are_options(rest@));
    assert(crate::fixture::is_pair(rest@, i));
    assert(crate::fixture::name_at(rest@, i) != crate::fixture::name_at(rest@, j));
}

/// A line has the length that it was to have, begins with its head as far as that fits, ends
/// with a line feed and is filled in between.
pub proof fn lemma_line_has_its_length(
    length: usize,
    prefix: &[u8],
    fill: u8,
    line: Vec<u8>,
    i: int,
)
    requires
        length > 0,
        call_ensures(build_line, (length, prefix, fill), line),
        0 <= i < length - 1,
    ensures
        line@.len() == length,
        line@.last() == 10,
        i < prefix@.len() ==> line@[i] == prefix@[i],
        i >= prefix@.len() ==> line@[i] == fill,
{
    assert(line@[length - 1] == crate::fixture::line_byte(
        length as int,
        prefix@,
        fill,
        length - 1,
    ));
    assert(line@[i] == crate::fixture::line_byte(length as int, prefix@, fill, i));
}

/// A stream waits until what it is about to write is due, and not longer: after the wait no
/// more was written than the rate allows, and without a wait it was due already.
pub proof fn lemma_stream_keeps_its_pace(planned: u64, rate: u64, elapsed: u64, wait: u64)
    requires
        rate > 0,
        planned * 1_000_000_000 / rate as int <= u64::MAX,
        call_ensures(pace, (planned, rate, elapsed), wait),
    ensures
        (elapsed + wait + 1) * rate > planned * 1_000_000_000,
        wait > 0 ==> (elapsed + wait) * rate <= planned * 1_000_000_000,
{
    let top = planned * 1_000_000_000;
    let due = top / rate as int;
    vstd::arithmetic::div_mod::lemma_fundamental_div_mod(top, rate as int);
    assert(rate * due + rate > top && rate * due <= top);
    assert((due + 1) * rate == rate * due + rate) by (nonlinear_arith);
    assert((elapsed + wait + 1) * rate >= (due + 1) * rate) by (nonlinear_arith)
        requires
            elapsed + wait >= due,
            rate > 0,
    ;
    if wait > 0 {
        assert(elapsed + wait == due);
        assert((elapsed + wait) * rate == rate * due) by (nonlinear_arith)
            requires
                elapsed + wait == due,
        ;
    }
}

/// A chunk is never empty while something is left, never longer than what is left, and at
/// most 65,536 bytes; what was written is no longer left.
pub proof fn lemma_chunk_is_part_of_what_is_left(stream: StreamView, length: int)
    requires
        stream.wf(),
        0 <= length <= stream.next_length(),
    ensures
        stream.remaining > 0 ==> stream.next_length() > 0,
        stream.next_length() <= stream.remaining,
        stream.next_length() <= 65_536,
        stream.next_bytes().len() == stream.next_length(),
        stream.after(length).remaining == stream.remaining - length,
        stream.after(length).line == stream.line,
        stream.after(length).wf(),
{
}

/// A stream is done exactly where nothing is left of it, and has a chunk exactly where
/// something is.
pub proof fn lemma_stream_is_done_where_nothing_is_left(
    stream: StreamState,
    complete: bool,
    chunk: Option<&[u8]>,
)
    requires
        stream@.wf(),
        call_ensures(StreamState::is_complete, (&stream,), complete),
        call_ensures(StreamState::next_chunk, (&stream,), chunk),
    ensures
        complete <==> stream@.remaining == 0,
        chunk is None <==> complete,
        chunk matches Some(chunk) ==> 0 < chunk@.len() <= stream@.remaining,
{
}

/// A line by which a process says that it is there is taken exactly where it is short, ends
/// with a line feed, and holds plain text.
pub proof fn lemma_readiness_is_one_short_line(
    line: &[u8],
    result: Result<&[u8], FixtureError>,
    pid: Option<u32>,
)
    requires
        call_ensures(read_bounded_line, (line,), result),
        call_ensures(parse_pid, (line,), pid),
    ensures
        result is Ok ==> 0 < line@.len() <= 256 && line@.last() == 10 && result->Ok_0@.len()
            == line@.len() - 1,
        result is Ok ==> forall|i: int|
            0 <= i < line@.len() ==> #[trigger] line@[i] < 128 && line@[i] != 13,
        result is Err ==> result->Err_0 == FixtureError::Runtime,
        pid is Some ==> pid->0 > 0 && line@.len() > 0,
{
}

/// What is written for an encoding is counted byte for byte, and is refused where there is
/// nothing or too much of it. Ports are announced only where there are some.
pub proof fn lemma_payload_is_counted(
    parts: Vec<Vec<u8>>,
    result: Result<usize, FixtureError>,
    address: NetworkAddress,
    tcp_port: u16,
    udp_port: u16,
    line: Result<String, FixtureError>,
    part: Seq<u8>,
)
    requires
        call_ensures(payload_bytes, (&parts,), result),
        call_ensures(network_readiness, (address, tcp_port, udp_port), line),
    ensures
        result is Ok ==> result->Ok_0 == total_of(parts_of(parts@)) && 0 < result->Ok_0 <= 65_536,
        total_of(parts_of(parts@).push(part)) == total_of(parts_of(parts@)) + part.len(),
        line is Ok <==> tcp_port != 0 && udp_port != 0,
{
    let longer = parts_of(parts@).push(part);
    assert(longer.drop_last() =~= parts_of(parts@));
}

/// Each way to fail has its code: 64 for what was not allowed or not understood, 70 for what
/// went wrong, and 124 for what took too long.
pub proof fn lemma_failure_has_its_code(error: FixtureError, code: u8)
    requires
        call_ensures(FixtureError::exit_code, (error,), code),
    ensures
        code == 64 <==> error == FixtureError::Authorization || error
            == FixtureError::InvalidArguments,
        code == 70 <==> error == FixtureError::Runtime,
        code == 124 <==> error == FixtureError::TimedOut,
{
}

/// Arguments are taken exactly where there are one to sixteen of them, each of them text of
/// 1 to 128 bytes, and in their order.
pub proof fn lemma_arguments_are_taken_whole(
    arguments: Vec<Option<String>>,
    result: Result<Vec<String>, FixtureError>,
    i: int,
)
    requires
        call_ensures(collect_arguments, (arguments,), result),
        0 <= i < arguments@.len(),
    ensures
        result is Ok ==> result->Ok_0@.len() == arguments@.len() && arguments@[i] == Some(
            result->Ok_0@[i],
        ) && arguments@.len() <= 16,
        arguments@[i] is None ==> result is Err,
        arguments@.len() > 16 ==> result is Err,
        result is Err ==> result->Err_0 == FixtureError::Authorization,
{
    if result is Ok {
        assert(crate::fixture::is_argument(arguments@[i]));
    }
}

} // verus!
