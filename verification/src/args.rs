//! The argument builder: from a transfer request to the argument list of the
//! transfer tool.
//!
//! Every transfer copies one file at a time and checks one at a time, retries
//! three times at both layers, has no overall timeout and a connection timeout of
//! sixty seconds, and compares by size. A chunk hint picks the number of
//! parallel streams and the chunk size of the upload protocol from a table;
//! without a hint, or with one that the table does not hold, the defaults
//! apply.

use vstd::prelude::*;
use vstd::string::*;
use crate::models::SyncRequest;
use crate::strings::{decimal_text, join2, join3, str_eq, u64_to_text};

verus! {

/// The number of streams without a usable hint.
pub const DEFAULT_STREAMS: u64 = 4;

/// The size in MiB above which a transfer is split into streams, without a
/// usable hint.
pub const DEFAULT_CUTOFF_MIB: u64 = 250;

/// No hint asks for more streams than this.
pub const MAX_STREAMS: u64 = 8;

/// A chunk of this size in MiB, or more, may be refused as too large by a
/// backend that limits the size of a request.
pub const CHUNK_SAFETY_THRESHOLD_MIB: u64 = 100;

/// The greatest chunk size in MiB that is ever asked for.
pub const MAX_CHUNK_CEILING_MIB: u64 = 96;

/// The tuning of one transfer.
#[derive(Debug, Clone, Copy)]
pub struct Tuning {
    /// The number of parallel streams.
    pub streams: u64,
    /// The size in MiB above which a transfer is split into streams.
    pub cutoff_mib: u64,
    /// The chunk size of the upload protocol in MiB, where a hint set one.
    pub chunk_ceiling_mib: Option<u64>,
}

/// What the transfer tool is started with.
#[derive(Debug)]
pub struct ArgumentSet {
    /// The arguments, in order.
    pub args: Vec<String>,
    pub tuning: Tuning,
}

/// The size in MiB of a hint that the table holds.
pub open spec fn hint_size(hint: Seq<char>) -> Option<u64> {
    if hint == "8M"@ {
        Some(8u64)
    } else if hint == "16M"@ {
        Some(16u64)
    } else if hint == "32M"@ {
        Some(32u64)
    } else if hint == "64M"@ {
        Some(64u64)
    } else if hint == "128M"@ {
        Some(128u64)
    } else {
        None
    }
}

/// The number of streams for a hint of `mib` MiB.
pub open spec fn streams_for(mib: u64) -> u64 {
    if mib <= 8 {
        2
    } else if mib <= 16 {
        4
    } else if mib <= 32 {
        6
    } else {
        8
    }
}

/// The chunk size in MiB for a hint of `mib` MiB: the hint, cut down to the
/// greatest chunk size.
pub open spec fn ceiling_for(mib: u64) -> u64 {
    if mib > MAX_CHUNK_CEILING_MIB {
        MAX_CHUNK_CEILING_MIB
    } else {
        mib
    }
}

/// The tuning without a usable hint.
pub open spec fn default_tuning() -> Tuning {
    Tuning { streams: DEFAULT_STREAMS, cutoff_mib: DEFAULT_CUTOFF_MIB, chunk_ceiling_mib: None }
}

/// The tuning for a hint.
pub open spec fn tuning_for(hint: Option<Seq<char>>) -> Tuning {
    match hint {
        Some(h) => match hint_size(h) {
            Some(mib) => Tuning {
                streams: streams_for(mib),
                cutoff_mib: mib,
                chunk_ceiling_mib: Some(ceiling_for(mib)),
            },
            None => default_tuning(),
        },
        None => default_tuning(),
    }
}

/// The destination of a transfer, as the tool names it.
pub open spec fn remote_target(remote_name: Seq<char>, remote_path: Seq<char>) -> Seq<char> {
    remote_name + ":"@ + remote_path
}

/// The arguments that every transfer has.
pub open spec fn fixed_arguments(config_path: Seq<char>, source: Seq<char>, target: Seq<char>) -> Seq<
    Seq<char>,
> {
    seq![
        "copy"@,
        "--config"@,
        config_path,
        source,
        target,
        "-P"@,
        "--stats=1s"@,
        "--transfers=1"@,
        "--checkers=1"@,
        "--retries=3"@,
        "--low-level-retries=3"@,
        "--timeout=0"@,
        "--contimeout=60s"@,
        "--ignore-checksum"@,
        "--size-only"@,
    ]
}

/// The arguments that carry the tuning.
pub open spec fn tuning_arguments(t: Tuning) -> Seq<Seq<char>> {
    let base = seq![
        "--multi-thread-streams="@ + decimal_text(t.streams as nat),
        "--multi-thread-cutoff="@ + decimal_text(t.cutoff_mib as nat) + "M"@,
    ];
    match t.chunk_ceiling_mib {
        Some(c) => base.push("--webdav-nextcloud-chunk-size="@ + decimal_text(c as nat) + "M"@),
        None => base,
    }
}

/// The whole argument list of a transfer.
pub open spec fn argument_list(
    config_path: Seq<char>,
    source: Seq<char>,
    remote_name: Seq<char>,
    remote_path: Seq<char>,
    hint: Option<Seq<char>>,
) -> Seq<Seq<char>> {
    fixed_arguments(config_path, source, remote_target(remote_name, remote_path))
        + tuning_arguments(tuning_for(hint))
}

/// The characters of each text of `v`.
pub open spec fn texts(v: Seq<String>) -> Seq<Seq<char>> {
    Seq::new(v.len(), |i: int| v[i]@)
}

/// The characters of a hint, where there is one.
pub open spec fn hint_view(hint: Option<String>) -> Option<Seq<char>> {
    match hint {
        Some(h) => Some(h@),
        None => None,
    }
}

/// Every tuning has from one to `MAX_STREAMS` streams, and a chunk size, where
/// it has one, below the safety threshold, whatever the hint.
pub proof fn lemma_tuning_bounds(hint: Option<Seq<char>>)
    ensures
        1 <= tuning_for(hint).streams <= MAX_STREAMS,
        tuning_for(hint).chunk_ceiling_mib is Some ==> tuning_for(hint).chunk_ceiling_mib->0
            < CHUNK_SAFETY_THRESHOLD_MIB,
        tuning_for(hint).chunk_ceiling_mib is Some ==> tuning_for(hint).chunk_ceiling_mib->0
            <= tuning_for(hint).cutoff_mib,
{
}

/// A smaller hint never asks for more streams than a greater one.
pub proof fn lemma_streams_monotonic(a: u64, b: u64)
    requires
        a <= b,
    ensures
        streams_for(a) <= streams_for(b),
        ceiling_for(a) <= ceiling_for(b),
{
}

/// A hint that the table does not hold gives the tuning that no hint gives.
pub proof fn lemma_unknown_hint(hint: Seq<char>)
    requires
        hint_size(hint) is None,
    ensures
        tuning_for(Some(hint)) == tuning_for(None),
{
}

/// The size in MiB of a hint that the table holds.
pub fn hint_size_of(hint: &str) -> (r: Option<u64>)
    ensures
        r == hint_size(hint@),
{
    if str_eq(hint, "8M") {
        Some(8)
    } else if str_eq(hint, "16M") {
        Some(16)
    } else if str_eq(hint, "32M") {
        Some(32)
    } else if str_eq(hint, "64M") {
        Some(64)
    } else if str_eq(hint, "128M") {
        Some(128)
    } else {
        None
    }
}

/// The tuning for a hint.
pub fn tuning_of(hint: &Option<String>) -> (t: Tuning)
    ensures
        t == tuning_for(hint_view(*hint)),
{
    let fallback = Tuning {
        streams: DEFAULT_STREAMS,
        cutoff_mib: DEFAULT_CUTOFF_MIB,
        chunk_ceiling_mib: None,
    };
    match hint {
        Some(h) => match hint_size_of(h.as_str()) {
            Some(mib) => {
                let streams: u64 = if mib <= 8 {
                    2
                } else if mib <= 16 {
                    4
                } else if mib <= 32 {
                    6
                } else {
                    8
                };
                let ceiling: u64 = if mib > MAX_CHUNK_CEILING_MIB {
                    MAX_CHUNK_CEILING_MIB
                } else {
                    mib
                };
                Tuning { streams, cutoff_mib: mib, chunk_ceiling_mib: Some(ceiling) }
            },
            None => fallback,
        },
        None => fallback,
    }
}

/// Builds the argument list of the transfer that `request` asks for, with
/// the configuration file at `config_path`.
pub fn build_arguments(config_path: &str, request: &SyncRequest) -> (r: ArgumentSet)
    ensures
        r.tuning == tuning_for(hint_view(request.chunk_size)),
        texts(r.args@) == argument_list(
            config_path@,
            request.source_path@,
            request.remote_name@,
            request.remote_path@,
            hint_view(request.chunk_size),
        ),
{
    let tuning = tuning_of(&request.chunk_size);
    let mut args: Vec<String> = Vec::new();
    args.push(String::from_str("copy"));
    args.push(String::from_str("--config"));
    args.push(String::from_str(config_path));
    args.push(request.source_path.clone());
    args.push(join3(request.remote_name.as_str(), ":", request.remote_path.as_str()));
    args.push(String::from_str("-P"));
    args.push(String::from_str("--stats=1s"));
    args.push(String::from_str("--transfers=1"));
    args.push(String::from_str("--checkers=1"));
    args.push(String::from_str("--retries=3"));
    args.push(String::from_str("--low-level-retries=3"));
    args.push(String::from_str("--timeout=0"));
    args.push(String::from_str("--contimeout=60s"));
    args.push(String::from_str("--ignore-checksum"));
    args.push(String::from_str("--size-only"));
    let streams = u64_to_text(tuning.streams);
    args.push(join2("--multi-thread-streams=", streams.as_str()));
    let cutoff = u64_to_text(tuning.cutoff_mib);
    args.push(join3("--multi-thread-cutoff=", cutoff.as_str(), "M"));
    match tuning.chunk_ceiling_mib {
        Some(c) => {
            let ceiling = u64_to_text(c);
            args.push(join3("--webdav-nextcloud-chunk-size=", ceiling.as_str(), "M"));
        },
        None => {},
    }
    proof {
        assert(texts(args@) =~= argument_list(
            config_path@,
            request.source_path@,
            request.remote_name@,
            request.remote_path@,
            hint_view(request.chunk_size),
        ));
    }
    ArgumentSet { args, tuning }
}

} // verus!
