//! What the test program writes: the bytes of each encoding, the lines by which
//! it says that it is there, and the heads of the lines that it floods with.

use vstd::prelude::*;

use crate::fixture::{
    address_of, encoding_of, process_tree_scenario_name, tree_of, EncodingScenario, FixtureError,
    NetworkAddress, ProcessTreeScenario,
};
use crate::text::{decimal, decimal_text, join};

verus! {

/// The most bytes that the program writes of an encoding.
pub const MAX_PAYLOAD_BYTES: usize = 64 * 1024;

/// The bytes of an encoding, in the parts in which they are written.
pub open spec fn payload_of(encoding: EncodingScenario) -> Seq<Seq<u8>> {
    match encoding {
        EncodingScenario::Utf8Split => seq![
            seq![
                0x55u8, 0x54u8, 0x46u8, 0x2du8, 0x38u8, 0x20u8, 0x73u8, 0x70u8,
                0x6cu8, 0x69u8, 0x74u8, 0x3au8, 0x20u8,
            ],
            seq![0xf0u8],
            seq![0x9fu8, 0xa7u8],
            seq![0xaau8, 0x0au8],
        ],
        EncodingScenario::Utf8Truncated => seq![
            seq![
                0x55u8, 0x54u8, 0x46u8, 0x2du8, 0x38u8, 0x20u8, 0x74u8, 0x72u8,
                0x75u8, 0x6eu8, 0x63u8, 0x61u8, 0x74u8, 0x65u8, 0x64u8, 0x3au8,
                0x20u8,
            ],
            seq![0xe4u8],
            seq![0xb8u8],
        ],
        EncodingScenario::InvalidUtf8 => seq![
            seq![
                0x49u8, 0x6eu8, 0x76u8, 0x61u8, 0x6cu8, 0x69u8, 0x64u8, 0x20u8,
                0x55u8, 0x54u8, 0x46u8, 0x2du8, 0x38u8, 0x3au8, 0x20u8,
            ],
            seq![0xffu8],
            seq![0xf0u8, 0x28u8],
            seq![0x8cu8, 0x28u8, 0x0au8],
        ],
        EncodingScenario::Utf16LeBomSplit => seq![
            seq![0xffu8],
            seq![0xfeu8],
            seq![0x4du8, 0x00u8, 0x61u8],
            seq![
                0x00u8, 0x67u8, 0x00u8, 0x69u8, 0x00u8, 0x63u8, 0x00u8, 0x54u8,
                0x00u8, 0x6fu8, 0x00u8, 0x6fu8, 0x00u8, 0x6cu8, 0x00u8, 0x73u8,
                0x00u8, 0x20u8, 0x00u8, 0x4cu8, 0x00u8, 0x45u8, 0x00u8, 0x20u8,
                0x00u8, 0x2du8, 0x4eu8, 0x0au8, 0x00u8,
            ],
        ],
        EncodingScenario::Utf16BeBomSplit => seq![
            seq![0xfeu8],
            seq![0xffu8],
            seq![0x00u8, 0x4du8, 0x00u8],
            seq![
                0x61u8, 0x00u8, 0x67u8, 0x00u8, 0x69u8, 0x00u8, 0x63u8, 0x00u8,
                0x54u8, 0x00u8, 0x6fu8, 0x00u8, 0x6fu8, 0x00u8, 0x6cu8, 0x00u8,
                0x73u8, 0x00u8, 0x20u8, 0x00u8, 0x42u8, 0x00u8, 0x45u8, 0x00u8,
                0x20u8, 0x4eu8, 0x2du8, 0x00u8, 0x0au8,
            ],
        ],
        EncodingScenario::Windows1252 => seq![
            seq![0x93u8],
            seq![
                0x57u8, 0x69u8, 0x6eu8, 0x64u8, 0x6fu8, 0x77u8, 0x73u8, 0x2du8,
                0x31u8, 0x32u8, 0x35u8, 0x32u8, 0x20u8, 0x71u8, 0x75u8, 0x6fu8,
                0x74u8, 0x65u8,
            ],
            seq![0x94u8, 0x20u8, 0x80u8, 0x20u8, 0x63u8, 0x61u8, 0x66u8],
            seq![0xe9u8, 0x0au8],
        ],
        EncodingScenario::AnsiOsc => seq![
            seq![0x1bu8, 0x5bu8],
            seq![
                0x33u8, 0x31u8, 0x6du8, 0x41u8, 0x4eu8, 0x53u8, 0x49u8, 0x20u8,
                0x72u8, 0x65u8, 0x64u8, 0x1bu8, 0x5bu8, 0x30u8,
            ],
            seq![
                0x6du8, 0x0au8, 0x1bu8, 0x5du8, 0x30u8, 0x3bu8, 0x4du8, 0x61u8,
                0x67u8, 0x69u8, 0x63u8, 0x54u8, 0x6fu8, 0x6fu8, 0x6cu8, 0x73u8,
                0x20u8, 0x66u8, 0x69u8, 0x78u8, 0x74u8, 0x75u8, 0x72u8, 0x65u8,
            ],
            seq![
                0x07u8, 0x4fu8, 0x53u8, 0x43u8, 0x20u8, 0x74u8, 0x69u8, 0x74u8,
                0x6cu8, 0x65u8, 0x0au8,
            ],
        ],
    }
}

/// What parts hold.
pub open spec fn parts_of(parts: Seq<Vec<u8>>) -> Seq<Seq<u8>> {
    Seq::new(parts.len(), |i: int| parts[i]@)
}

/// The bytes of an encoding, in the parts in which they are written: cut within
/// a character, not ended, not valid, or with controls.
pub fn payload(encoding: EncodingScenario) -> (parts: Vec<Vec<u8>>)
    ensures
        parts_of(parts@) == payload_of(encoding),
{
    let parts: Vec<Vec<u8>> = match encoding {
        EncodingScenario::Utf8Split => vec![
            vec![0x55, 0x54, 0x46, 0x2d, 0x38, 0x20, 0x73, 0x70, 0x6c, 0x69, 0x74, 0x3a, 0x20],
            vec![0xf0],
            vec![0x9f, 0xa7],
            vec![0xaa, 0x0a],
        ],
        EncodingScenario::Utf8Truncated => vec![
            vec![
                0x55, 0x54, 0x46, 0x2d, 0x38, 0x20, 0x74, 0x72, 0x75, 0x6e,
                0x63, 0x61, 0x74, 0x65, 0x64, 0x3a, 0x20,
            ],
            vec![0xe4],
            vec![0xb8],
        ],
        EncodingScenario::InvalidUtf8 => vec![
            vec![
                0x49, 0x6e, 0x76, 0x61, 0x6c, 0x69, 0x64, 0x20, 0x55, 0x54,
                0x46, 0x2d, 0x38, 0x3a, 0x20,
            ],
            vec![0xff],
            vec![0xf0, 0x28],
            vec![0x8c, 0x28, 0x0a],
        ],
        EncodingScenario::Utf16LeBomSplit => vec![
            vec![0xff],
            vec![0xfe],
            vec![0x4d, 0x00, 0x61],
            vec![
                0x00, 0x67, 0x00, 0x69, 0x00, 0x63, 0x00, 0x54, 0x00, 0x6f,
                0x00, 0x6f, 0x00, 0x6c, 0x00, 0x73, 0x00, 0x20, 0x00, 0x4c,
                0x00, 0x45, 0x00, 0x20, 0x00, 0x2d, 0x4e, 0x0a, 0x00,
            ],
        ],
        EncodingScenario::Utf16BeBomSplit => vec![
            vec![0xfe],
            vec![0xff],
            vec![0x00, 0x4d, 0x00],
            vec![
                0x61, 0x00, 0x67, 0x00, 0x69, 0x00, 0x63, 0x00, 0x54, 0x00,
                0x6f, 0x00, 0x6f, 0x00, 0x6c, 0x00, 0x73, 0x00, 0x20, 0x00,
                0x42, 0x00, 0x45, 0x00, 0x20, 0x4e, 0x2d, 0x00, 0x0a,
            ],
        ],
        EncodingScenario::Windows1252 => vec![
            vec![0x93],
            vec![
                0x57, 0x69, 0x6e, 0x64, 0x6f, 0x77, 0x73, 0x2d, 0x31, 0x32,
                0x35, 0x32, 0x20, 0x71, 0x75, 0x6f, 0x74, 0x65,
            ],
            vec![0x94, 0x20, 0x80, 0x20, 0x63, 0x61, 0x66],
            vec![0xe9, 0x0a],
        ],
        EncodingScenario::AnsiOsc => vec![
            vec![0x1b, 0x5b],
            vec![
                0x33, 0x31, 0x6d, 0x41, 0x4e, 0x53, 0x49, 0x20, 0x72, 0x65,
                0x64, 0x1b, 0x5b, 0x30,
            ],
            vec![
                0x6d, 0x0a, 0x1b, 0x5d, 0x30, 0x3b, 0x4d, 0x61, 0x67, 0x69,
                0x63, 0x54, 0x6f, 0x6f, 0x6c, 0x73, 0x20, 0x66, 0x69, 0x78,
                0x74, 0x75, 0x72, 0x65,
            ],
            vec![0x07, 0x4f, 0x53, 0x43, 0x20, 0x74, 0x69, 0x74, 0x6c, 0x65, 0x0a],
        ],
    };
    proof {
        let shown = payload_of(encoding);
        assert(parts@.len() == shown.len());
        assert forall|i: int| 0 <= i < parts@.len() implies (#[trigger] parts@[i])@ == shown[i] by {
            assert(parts@[i]@ =~= shown[i]);
        }
        assert(parts_of(parts@) =~= shown);
    }
    parts
}

/// How many bytes parts hold.
pub open spec fn total_of(parts: Seq<Seq<u8>>) -> nat
    decreases parts.len(),
{
    if parts.len() == 0 {
        0
    } else {
        total_of(parts.drop_last()) + parts.last().len()
    }
}

/// How many bytes are to be written; a program that would write none, or more
/// than it may, fails.
pub fn payload_bytes(parts: &Vec<Vec<u8>>) -> (result: Result<usize, FixtureError>)
    ensures
        ({
            let total = total_of(parts_of(parts@));
            match result {
                Ok(bytes) => bytes == total && 0 < total <= MAX_PAYLOAD_BYTES,
                Err(error) => error == FixtureError::Runtime && !(0 < total
                    <= MAX_PAYLOAD_BYTES),
            }
        }),
{
    let mut total: usize = 0;
    let mut i: usize = 0;
    let ghost shown = parts_of(parts@);
    assert(shown.subrange(0, 0) =~= Seq::empty());
    while i < parts.len()
        invariant
            i <= parts@.len(),
            shown == parts_of(parts@),
            total == total_of(shown.subrange(0, i as int)),
            total <= MAX_PAYLOAD_BYTES,
        decreases parts@.len() - i,
    {
        let length: usize = parts[i].len();
        proof {
            let longer = shown.subrange(0, i + 1);
            assert(longer.drop_last() =~= shown.subrange(0, i as int));
            assert(longer.last().len() == length);
            lemma_total_grows(shown, i + 1);
        }
        if length > MAX_PAYLOAD_BYTES - total {
            return Err(FixtureError::Runtime);
        }
        total = total + length;
        i += 1;
    }
    assert(shown.subrange(0, parts@.len() as int) =~= shown);
    if total == 0 {
        return Err(FixtureError::Runtime);
    }
    Ok(total)
}

proof fn lemma_total_grows(parts: Seq<Seq<u8>>, end: int)
    requires
        0 <= end <= parts.len(),
    ensures
        total_of(parts.subrange(0, end)) <= total_of(parts),
    decreases parts.len(),
{
    if end < parts.len() {
        lemma_total_grows(parts.drop_last(), end);
        assert(parts.drop_last().subrange(0, end) =~= parts.subrange(0, end));
    } else {
        assert(parts.subrange(0, end) =~= parts);
    }
}

/// The name of a scenario of bytes.
pub fn scenario_name(encoding: EncodingScenario) -> (name: &'static str)
    ensures
        encoding_of(name@) == Some(encoding),
{
    proof {
        reveal_strlit("utf8-split");
        reveal_strlit("utf8-truncated");
        reveal_strlit("invalid-utf8");
        reveal_strlit("utf16le-bom-split");
        reveal_strlit("utf16be-bom-split");
        reveal_strlit("windows-1252");
        reveal_strlit("ansi-osc");
    }
    match encoding {
        EncodingScenario::Utf8Split => "utf8-split",
        EncodingScenario::Utf8Truncated => {
            assert("utf8-truncated"@.len() != "utf8-split"@.len());
            "utf8-truncated"
        },
        EncodingScenario::InvalidUtf8 => {
            assert("invalid-utf8"@.len() != "utf8-split"@.len());
            assert("invalid-utf8"@.len() != "utf8-truncated"@.len());
            "invalid-utf8"
        },
        EncodingScenario::Utf16LeBomSplit => {
            assert("utf16le-bom-split"@.len() != "utf8-split"@.len());
            assert("utf16le-bom-split"@.len() != "utf8-truncated"@.len());
            assert("utf16le-bom-split"@.len() != "invalid-utf8"@.len());
            "utf16le-bom-split"
        },
        EncodingScenario::Utf16BeBomSplit => {
            assert("utf16be-bom-split"@.len() != "utf8-split"@.len());
            assert("utf16be-bom-split"@.len() != "utf8-truncated"@.len());
            assert("utf16be-bom-split"@.len() != "invalid-utf8"@.len());
            assert("utf16be-bom-split"@[5] != "utf16le-bom-split"@[5]);
            "utf16be-bom-split"
        },
        EncodingScenario::Windows1252 => {
            assert("windows-1252"@.len() != "utf8-split"@.len());
            assert("windows-1252"@.len() != "utf8-truncated"@.len());
            assert("windows-1252"@[0] != "invalid-utf8"@[0]);
            assert("windows-1252"@.len() != "utf16le-bom-split"@.len());
            assert("windows-1252"@.len() != "utf16be-bom-split"@.len());
            "windows-1252"
        },
        EncodingScenario::AnsiOsc => {
            assert("ansi-osc"@.len() != "utf8-split"@.len());
            assert("ansi-osc"@.len() != "utf8-truncated"@.len());
            assert("ansi-osc"@.len() != "invalid-utf8"@.len());
            assert("ansi-osc"@.len() != "utf16le-bom-split"@.len());
            assert("ansi-osc"@.len() != "utf16be-bom-split"@.len());
            assert("ansi-osc"@.len() != "windows-1252"@.len());
            "ansi-osc"
        },
    }
}

/// The name of an address.
pub fn address_name(address: NetworkAddress) -> (name: &'static str)
    ensures
        address_of(name@) == Some(address),
{
    proof {
        reveal_strlit("127.0.0.1");
        reveal_strlit("0.0.0.0");
        reveal_strlit("::1");
        reveal_strlit("::");
    }
    match address {
        NetworkAddress::Ipv4Loopback => "127.0.0.1",
        NetworkAddress::Ipv4Unspecified => {
            assert("0.0.0.0"@.len() != "127.0.0.1"@.len());
            "0.0.0.0"
        },
        NetworkAddress::Ipv6Loopback => {
            assert("::1"@.len() != "127.0.0.1"@.len());
            assert("::1"@.len() != "0.0.0.0"@.len());
            "::1"
        },
        NetworkAddress::Ipv6Unspecified => {
            assert("::"@.len() != "127.0.0.1"@.len());
            assert("::"@.len() != "0.0.0.0"@.len());
            assert("::"@.len() != "::1"@.len());
            "::"
        },
    }
}

/// The line by which the program says that it listens.
pub fn network_readiness(address: NetworkAddress, tcp_port: u16, udp_port: u16) -> (result: Result<
    String,
    FixtureError,
>)
    ensures
        match result {
            Ok(line) => {
                &&& tcp_port != 0 && udp_port != 0
                &&& exists|name: Seq<char>| #[trigger]
                    address_of(name) == Some(address) && line@
                        == "MAGICTOOLS_TEST_FIXTURE_NETWORK_READY address="@ + name + " tcp_port="@
                        + decimal_text(tcp_port as nat) + " udp_port="@ + decimal_text(
                        udp_port as nat,
                    )
            },
            Err(error) => error == FixtureError::Runtime && (tcp_port == 0 || udp_port == 0),
        },
{
    if tcp_port == 0 || udp_port == 0 {
        return Err(FixtureError::Runtime);
    }
    let name = address_name(address);
    let head = join("MAGICTOOLS_TEST_FIXTURE_NETWORK_READY address=", name);
    let tcp = join(
        join(head.as_str(), " tcp_port=").as_str(),
        decimal(tcp_port as u64).as_str(),
    );
    let line = join(join(tcp.as_str(), " udp_port=").as_str(), decimal(udp_port as u64).as_str());
    assert(address_of(name@) == Some(address));
    Ok(line)
}

/// The line by which the program says which bytes it will write.
pub fn encoding_readiness(encoding: EncodingScenario, payload_bytes: usize) -> (line: String)
    ensures
        exists|name: Seq<char>| #[trigger]
            encoding_of(name) == Some(encoding) && line@
                == "MAGICTOOLS_TEST_FIXTURE_ENCODING_READY scenario="@ + name + " payload_bytes="@
                + decimal_text(payload_bytes as nat),
{
    let name = scenario_name(encoding);
    let head = join("MAGICTOOLS_TEST_FIXTURE_ENCODING_READY scenario=", name);
    let line = join(
        join(head.as_str(), " payload_bytes=").as_str(),
        decimal(payload_bytes as u64).as_str(),
    );
    assert(encoding_of(name@) == Some(encoding));
    line
}

/// The line by which the program says that its tree of processes stands.
pub fn tree_readiness(pid: u32, child_pid: u32, grandchild_pid: u32, tree: ProcessTreeScenario) -> (line:
    String)
    ensures
        exists|name: Seq<char>| #[trigger]
            tree_of(name) == Some(tree) && line@ == "MAGICTOOLS_TEST_FIXTURE_PROCESS_TREE_READY:"@
                + decimal_text(pid as nat) + ":"@ + decimal_text(child_pid as nat) + ":"@
                + decimal_text(grandchild_pid as nat) + ":"@ + name,
{
    let name = process_tree_scenario_name(tree);
    let head = join("MAGICTOOLS_TEST_FIXTURE_PROCESS_TREE_READY:", decimal(pid as u64).as_str());
    let child = join(join(head.as_str(), ":").as_str(), decimal(child_pid as u64).as_str());
    let grandchild = join(
        join(child.as_str(), ":").as_str(),
        decimal(grandchild_pid as u64).as_str(),
    );
    let line = join(join(grandchild.as_str(), ":").as_str(), name);
    assert(tree_of(name@) == Some(tree));
    line
}

/// The line by which the last process of a tree says that it is there.
pub fn grandchild_readiness(pid: u32) -> (line: String)
    ensures
        line@ == "MAGICTOOLS_TEST_FIXTURE_GRANDCHILD_READY:"@ + decimal_text(pid as nat),
{
    join("MAGICTOOLS_TEST_FIXTURE_GRANDCHILD_READY:", decimal(pid as u64).as_str())
}

/// What the lines on the output begin with.
pub open spec fn stdout_head() -> Seq<u8> {
    seq![
        0x1bu8, 0x5bu8, 0x33u8, 0x32u8, 0x6du8, 0x4du8, 0x41u8, 0x47u8, 0x49u8, 0x43u8,
        0x54u8, 0x4fu8, 0x4fu8, 0x4cu8, 0x53u8, 0x5fu8, 0x54u8, 0x45u8, 0x53u8, 0x54u8,
        0x5fu8, 0x46u8, 0x49u8, 0x58u8, 0x54u8, 0x55u8, 0x52u8, 0x45u8, 0x5fu8, 0x53u8,
        0x54u8, 0x44u8, 0x4fu8, 0x55u8, 0x54u8, 0x1bu8, 0x5bu8, 0x30u8, 0x6du8, 0x20u8,
    ]
}

/// What the lines on the error output begin with.
pub open spec fn stderr_head() -> Seq<u8> {
    seq![
        0x1bu8, 0x5du8, 0x30u8, 0x3bu8, 0x4du8, 0x61u8, 0x67u8, 0x69u8, 0x63u8, 0x54u8,
        0x6fu8, 0x6fu8, 0x6cu8, 0x73u8, 0x20u8, 0x66u8, 0x69u8, 0x78u8, 0x74u8, 0x75u8,
        0x72u8, 0x65u8, 0x07u8, 0x1bu8, 0x5bu8, 0x33u8, 0x31u8, 0x6du8, 0x4du8, 0x41u8,
        0x47u8, 0x49u8, 0x43u8, 0x54u8, 0x4fu8, 0x4fu8, 0x4cu8, 0x53u8, 0x5fu8, 0x54u8,
        0x45u8, 0x53u8, 0x54u8, 0x5fu8, 0x46u8, 0x49u8, 0x58u8, 0x54u8, 0x55u8, 0x52u8,
        0x45u8, 0x5fu8, 0x53u8, 0x54u8, 0x44u8, 0x45u8, 0x52u8, 0x52u8, 0x1bu8, 0x5bu8,
        0x30u8, 0x6du8, 0x20u8,
    ]
}

pub fn stdout_prefix() -> (bytes: Vec<u8>)
    ensures
        bytes@ == stdout_head(),
{
    let bytes: Vec<u8> = vec![
        0x1b, 0x5b, 0x33, 0x32, 0x6d, 0x4d, 0x41, 0x47, 0x49, 0x43, 0x54, 0x4f, 0x4f,
        0x4c, 0x53, 0x5f, 0x54, 0x45, 0x53, 0x54, 0x5f, 0x46, 0x49, 0x58, 0x54, 0x55,
        0x52, 0x45, 0x5f, 0x53, 0x54, 0x44, 0x4f, 0x55, 0x54, 0x1b, 0x5b, 0x30, 0x6d,
        0x20,
    ];
    assert(bytes@ =~= stdout_head());
    bytes
}

pub fn stderr_prefix() -> (bytes: Vec<u8>)
    ensures
        bytes@ == stderr_head(),
{
    let bytes: Vec<u8> = vec![
        0x1b, 0x5d, 0x30, 0x3b, 0x4d, 0x61, 0x67, 0x69, 0x63, 0x54, 0x6f, 0x6f, 0x6c,
        0x73, 0x20, 0x66, 0x69, 0x78, 0x74, 0x75, 0x72, 0x65, 0x07, 0x1b, 0x5b, 0x33,
        0x31, 0x6d, 0x4d, 0x41, 0x47, 0x49, 0x43, 0x54, 0x4f, 0x4f, 0x4c, 0x53, 0x5f,
        0x54, 0x45, 0x53, 0x54, 0x5f, 0x46, 0x49, 0x58, 0x54, 0x55, 0x52, 0x45, 0x5f,
        0x53, 0x54, 0x44, 0x45, 0x52, 0x52, 0x1b, 0x5b, 0x30, 0x6d, 0x20,
    ];
    assert(bytes@ =~= stderr_head());
    bytes
}

} // verus!
