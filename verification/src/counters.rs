//! The counter source: what the processor, network and memory tables of the
//! operating system say, read from their text.

use crate::error::SensorError;
use crate::strings::{trim, trimmed};
use crate::text::{
    bytes_eq, decimal, fields, lines, parse_u64, split_fields, split_lines, starts_with,
    trim_end_matches, trimmed_end, has_prefix, views,
};
use vstd::prelude::*;
use vstd::string::StringSliceAdditionalSpecFns;
use vstd::utf8::encode_utf8;

verus! {

/// Colon: ends an interface name.
pub const COLON: u8 = 0x3a;

/// Counters that a processor line must hold after its label.
pub const CPU_COUNTERS: usize = 10;

/// The cumulative time of one processor core.
#[derive(Clone, Copy, Debug, PartialEq, Eq, Structural)]
pub struct CpuTimes {
    /// All time accounted to the core.
    pub total: u64,
    /// The part of it spent idle or waiting for input and output.
    pub idle: u64,
}

/// The cumulative traffic of one network interface.
#[derive(Clone, Copy, Debug, PartialEq, Eq, Structural)]
pub struct NetCounters {
    /// Received.
    pub rx: u64,
    /// Transmitted.
    pub tx: u64,
}

/// The memory totals.
#[derive(Clone, Copy, Debug, PartialEq, Eq, Structural)]
pub struct MemInfo {
    /// All memory.
    pub total: u64,
    /// Memory in no use.
    pub free: u64,
    /// Memory in buffers.
    pub buffers: u64,
    /// Memory in the page cache.
    pub cached: u64,
}

/// The bytes `cpu`, with which every processor line begins.
pub open spec fn cpu_label() -> Seq<u8> {
    "cpu".spec_bytes()
}

/// The key of the line that holds all memory.
pub open spec fn total_key() -> Seq<u8> {
    "MemTotal:".spec_bytes()
}

/// The key of the line that holds the free memory.
pub open spec fn free_key() -> Seq<u8> {
    "MemFree:".spec_bytes()
}

/// The key of the line that holds the memory in buffers.
pub open spec fn buffers_key() -> Seq<u8> {
    "Buffers:".spec_bytes()
}

/// The key of the line that holds the cached memory.
pub open spec fn cached_key() -> Seq<u8> {
    "Cached:".spec_bytes()
}

/// `items` without its first item.
pub open spec fn rest<T>(items: Seq<T>) -> Seq<T> {
    if items.len() == 0 {
        items
    } else {
        items.subrange(1, items.len() as int)
    }
}

/// The numbers that `tokens` write, if every one of them writes a number.
pub open spec fn numbers(tokens: Seq<Seq<u8>>) -> Option<Seq<u64>> {
    if forall|i: int| 0 <= i < tokens.len() ==> (#[trigger] decimal(tokens[i])) is Some {
        Some(Seq::new(tokens.len(), |i: int| decimal(tokens[i])->0))
    } else {
        None
    }
}

/// The sum of the first ten counters of a processor line.
pub open spec fn total_time(counters: Seq<u64>) -> int {
    counters[0] + counters[1] + counters[2] + counters[3] + counters[4] + counters[5]
        + counters[6] + counters[7] + counters[8] + counters[9]
}

/// What a processor line says. The fields after its label are its counters:
/// each must be a number, there must be ten of them or more, and the first ten
/// must add up within 64 bits. The fourth and fifth are the idle time.
pub open spec fn cpu_line_times(line: Seq<u8>) -> Result<CpuTimes, SensorError> {
    match numbers(rest(fields(line))) {
        None => Err(SensorError::NotANumber),
        Some(counters) => if counters.len() < CPU_COUNTERS {
            Err(SensorError::MissingField)
        } else if total_time(counters) > u64::MAX {
            Err(SensorError::Overflow)
        } else {
            Ok(
                CpuTimes {
                    total: total_time(counters) as u64,
                    idle: (counters[3] + counters[4]) as u64,
                },
            )
        },
    }
}

/// Those of `lines` that begin with the processor label, in order.
pub open spec fn cpu_lines(lines: Seq<Seq<u8>>) -> Seq<Seq<u8>>
    decreases lines.len(),
{
    if lines.len() == 0 {
        lines
    } else if has_prefix(lines.last(), cpu_label()) {
        cpu_lines(lines.drop_last()).push(lines.last())
    } else {
        cpu_lines(lines.drop_last())
    }
}

/// What the processor lines `core_lines` say, one after the other; the first
/// line that fails decides the error.
pub open spec fn cpu_samples_of(core_lines: Seq<Seq<u8>>) -> Result<Seq<CpuTimes>, SensorError>
    decreases core_lines.len(),
{
    if core_lines.len() == 0 {
        Ok(Seq::empty())
    } else {
        match cpu_samples_of(core_lines.drop_last()) {
            Err(error) => Err(error),
            Ok(samples) => match cpu_line_times(core_lines.last()) {
                Err(error) => Err(error),
                Ok(times) => Ok(samples.push(times)),
            },
        }
    }
}

/// The cumulative times of the processor cores in the processor table
/// `text`, first core first. The first processor line of the table is the
/// summary over all cores and counts for none.
pub open spec fn cpu_samples(text: Seq<u8>) -> Result<Seq<CpuTimes>, SensorError> {
    cpu_samples_of(rest(cpu_lines(lines(text))))
}

/// What a line of the network table says of the interfaces named in
/// `allowed`: nothing where the line is about another interface, else the two
/// counters that follow the interface's name. The name is the first field
/// without the colons at its end.
pub open spec fn net_line_counters(line: Seq<u8>, allowed: Seq<Seq<u8>>) -> Result<
    Option<NetCounters>,
    SensorError,
> {
    let parts = fields(line);
    if parts.len() < 1 {
        Err(SensorError::MissingField)
    } else if !allowed.contains(trimmed_end(parts[0], COLON)) {
        Ok(None)
    } else if parts.len() < 2 {
        Err(SensorError::MissingField)
    } else if decimal(parts[1]) is None {
        Err(SensorError::NotANumber)
    } else if parts.len() < 3 {
        Err(SensorError::MissingField)
    } else if decimal(parts[2]) is None {
        Err(SensorError::NotANumber)
    } else {
        Ok(Some(NetCounters { rx: decimal(parts[1])->0, tx: decimal(parts[2])->0 }))
    }
}

/// What the lines `lines` of the network table say of the interfaces named in
/// `allowed`, in the order of the lines; the first line that fails decides the
/// error.
pub open spec fn net_samples_of(lines: Seq<Seq<u8>>, allowed: Seq<Seq<u8>>) -> Result<
    Seq<NetCounters>,
    SensorError,
>
    decreases lines.len(),
{
    if lines.len() == 0 {
        Ok(Seq::empty())
    } else {
        match net_samples_of(lines.drop_last(), allowed) {
            Err(error) => Err(error),
            Ok(samples) => match net_line_counters(lines.last(), allowed) {
                Err(error) => Err(error),
                Ok(None) => Ok(samples),
                Ok(Some(counters)) => Ok(samples.push(counters)),
            },
        }
    }
}

/// The cumulative traffic of the interfaces named in `allowed`, in the order
/// in which the network table `text` lists them.
pub open spec fn net_samples(text: Seq<u8>, allowed: Seq<Seq<u8>>) -> Result<
    Seq<NetCounters>,
    SensorError,
> {
    net_samples_of(lines(text), allowed)
}

/// `info` after a line with key `key` and value `value`: the four keys of the
/// memory totals set their total, any other key changes nothing.
pub open spec fn mem_with(info: MemInfo, key: Seq<u8>, value: u64) -> MemInfo {
    if key == total_key() {
        MemInfo { total: value, ..info }
    } else if key == free_key() {
        MemInfo { free: value, ..info }
    } else if key == buffers_key() {
        MemInfo { buffers: value, ..info }
    } else if key == cached_key() {
        MemInfo { cached: value, ..info }
    } else {
        info
    }
}

/// Key and value of a line of the memory table: its first two fields, the
/// second of which must be a number.
pub open spec fn mem_line_entry(line: Seq<u8>) -> Result<(Seq<u8>, u64), SensorError> {
    let parts = fields(line);
    if parts.len() < 2 {
        Err(SensorError::MissingField)
    } else if decimal(parts[1]) is None {
        Err(SensorError::NotANumber)
    } else {
        Ok((parts[0], decimal(parts[1])->0))
    }
}

/// The memory totals that the lines `lines` leave behind, starting from all
/// zero; a later line with the same key replaces an earlier one, and the first
/// line that fails decides the error.
pub open spec fn mem_info_of(lines: Seq<Seq<u8>>) -> Result<MemInfo, SensorError>
    decreases lines.len(),
{
    if lines.len() == 0 {
        Ok(MemInfo { total: 0, free: 0, buffers: 0, cached: 0 })
    } else {
        match mem_info_of(lines.drop_last()) {
            Err(error) => Err(error),
            Ok(info) => match mem_line_entry(lines.last()) {
                Err(error) => Err(error),
                Ok((key, value)) => Ok(mem_with(info, key, value)),
            },
        }
    }
}

/// The memory totals in the memory table `text`.
pub open spec fn mem_info(text: Seq<u8>) -> Result<MemInfo, SensorError> {
    mem_info_of(lines(text))
}

/// The number in a file that holds one counter: what the file holds, without
/// the whitespace around it, must write a number.
pub open spec fn counter_in(contents: Seq<char>) -> Result<u64, SensorError> {
    match decimal(encode_utf8(trimmed(contents))) {
        Some(number) => Ok(number),
        None => Err(SensorError::NotANumber),
    }
}

/// The number in a file that holds one counter.
pub fn parse_counter(contents: &str) -> (result: Result<u64, SensorError>)
    ensures
        result == counter_in(contents@),
{
    let kept: String = trim(contents);
    match parse_u64(kept.as_str().as_bytes()) {
        Some(number) => Ok(number),
        None => Err(SensorError::NotANumber),
    }
}

/// The state in a file that holds one word of state: what the file holds,
/// without the whitespace around it.
pub fn parse_status(contents: &str) -> (status: String)
    ensures
        status@ == trimmed(contents@),
{
    trim(contents)
}

/// The numbers that the fields of a line write after its first field.
fn parse_counters(parts: &Vec<Vec<u8>>) -> (counters: Option<Vec<u64>>)
    ensures
        match counters {
            Some(values) => numbers(rest(views(parts@))) == Some(values@),
            None => numbers(rest(views(parts@))) is None,
        },
{
    let ghost tokens = rest(views(parts@));
    let mut values: Vec<u64> = Vec::new();
    if parts.len() == 0 {
        assert(values@ =~= numbers(tokens)->0);
        return Some(values);
    }
    let mut i: usize = 1;
    while i < parts.len()
        invariant
            1 <= i <= parts@.len(),
            tokens == rest(views(parts@)),
            values@.len() == i - 1,
            forall|k: int|
                0 <= k < values@.len() ==> decimal(tokens[k]) == Some(#[trigger] values@[k]),
        decreases parts@.len() - i,
    {
        assert(tokens[i - 1] == parts@[i as int]@);
        match parse_u64(parts[i].as_slice()) {
            None => {
                assert(decimal(tokens[i - 1]) is None);
                return None;
            },
            Some(value) => {
                values.push(value);
            },
        }
        i += 1;
    }
    proof {
        assert(values@.len() == tokens.len());
        assert forall|k: int| 0 <= k < tokens.len() implies (#[trigger] decimal(
            tokens[k],
        )) is Some by {
            assert(decimal(tokens[k]) == Some(values@[k]));
        }
        assert(values@ =~= numbers(tokens)->0);
    }
    Some(values)
}

/// What a processor line says.
pub fn parse_cpu_line(line: &[u8]) -> (result: Result<CpuTimes, SensorError>)
    ensures
        result == cpu_line_times(line@),
{
    let parts: Vec<Vec<u8>> = split_fields(line);
    match parse_counters(&parts) {
        None => Err(SensorError::NotANumber),
        Some(counters) => {
            if counters.len() < CPU_COUNTERS {
                return Err(SensorError::MissingField);
            }
            let total: u128 = counters[0] as u128 + counters[1] as u128 + counters[2] as u128
                + counters[3] as u128 + counters[4] as u128 + counters[5] as u128
                + counters[6] as u128 + counters[7] as u128 + counters[8] as u128
                + counters[9] as u128;
            if total > u64::MAX as u128 {
                return Err(SensorError::Overflow);
            }
            Ok(CpuTimes { total: total as u64, idle: counters[3] + counters[4] })
        },
    }
}

/// The cumulative times of the processor cores in the processor table `text`.
pub fn parse_cpu(text: &[u8]) -> (result: Result<Vec<CpuTimes>, SensorError>)
    ensures
        match result {
            Ok(samples) => cpu_samples(text@) == Ok::<Seq<CpuTimes>, SensorError>(samples@),
            Err(error) => cpu_samples(text@) == Err::<Seq<CpuTimes>, SensorError>(error),
        },
{
    let all: Vec<Vec<u8>> = split_lines(text);
    let label: &[u8] = "cpu".as_bytes();
    let mut samples: Vec<CpuTimes> = Vec::new();
    let mut failure: Option<SensorError> = None;
    let mut summary_seen: bool = false;
    let mut i: usize = 0;
    while i < all.len()
        invariant
            i <= all@.len(),
            views(all@) == lines(text@),
            label@ == cpu_label(),
            summary_seen == (cpu_lines(views(all@).take(i as int)).len() > 0),
            match failure {
                None => cpu_samples_of(rest(cpu_lines(views(all@).take(i as int)))) == Ok::<
                    Seq<CpuTimes>,
                    SensorError,
                >(samples@),
                Some(error) => cpu_samples_of(rest(cpu_lines(views(all@).take(i as int))))
                    == Err::<Seq<CpuTimes>, SensorError>(error),
            },
        decreases all@.len() - i,
    {
        let ghost seen = views(all@).take(i as int);
        let ghost next = views(all@).take(i + 1);
        let ghost line = all@[i as int]@;
        proof {
            assert(next.drop_last() =~= seen);
            assert(next.last() == line);
        }
        if starts_with(all[i].as_slice(), label) {
            proof {
                assert(cpu_lines(next) == cpu_lines(seen).push(line));
            }
            if !summary_seen {
                summary_seen = true;
                proof {
                    assert(rest(cpu_lines(next)) =~= Seq::<Seq<u8>>::empty());
                    assert(rest(cpu_lines(seen)) =~= Seq::<Seq<u8>>::empty());
                }
            } else {
                proof {
                    assert(rest(cpu_lines(next)) =~= rest(cpu_lines(seen)).push(line));
                    assert(rest(cpu_lines(next)).drop_last() =~= rest(cpu_lines(seen)));
                }
                let parsed: Result<CpuTimes, SensorError> = parse_cpu_line(all[i].as_slice());
                if failure.is_none() {
                    match parsed {
                        Ok(times) => {
                            samples.push(times);
                        },
                        Err(error) => {
                            failure = Some(error);
                        },
                    }
                }
            }
        }
        i += 1;
    }
    proof {
        assert(views(all@).take(i as int) =~= views(all@));
    }
    match failure {
        None => Ok(samples),
        Some(error) => Err(error),
    }
}

/// Whether `name` is one of `allowed`.
pub fn is_allowed(name: &[u8], allowed: &Vec<Vec<u8>>) -> (found: bool)
    ensures
        found == views(allowed@).contains(name@),
{
    let mut i: usize = 0;
    while i < allowed.len()
        invariant
            i <= allowed@.len(),
            forall|k: int| 0 <= k < i ==> views(allowed@)[k] != name@,
        decreases allowed@.len() - i,
    {
        if bytes_eq(allowed[i].as_slice(), name) {
            assert(views(allowed@)[i as int] == name@);
            return true;
        }
        i += 1;
    }
    false
}

/// What a line of the network table says of the interfaces named in `allowed`.
pub fn parse_net_line(line: &[u8], allowed: &Vec<Vec<u8>>) -> (result: Result<
    Option<NetCounters>,
    SensorError,
>)
    ensures
        result == net_line_counters(line@, views(allowed@)),
{
    let parts: Vec<Vec<u8>> = split_fields(line);
    if parts.len() < 1 {
        return Err(SensorError::MissingField);
    }
    let name: &[u8] = trim_end_matches(parts[0].as_slice(), COLON);
    if !is_allowed(name, allowed) {
        return Ok(None);
    }
    if parts.len() < 2 {
        return Err(SensorError::MissingField);
    }
    let rx: u64 = match parse_u64(parts[1].as_slice()) {
        None => {
            return Err(SensorError::NotANumber);
        },
        Some(value) => value,
    };
    if parts.len() < 3 {
        return Err(SensorError::MissingField);
    }
    let tx: u64 = match parse_u64(parts[2].as_slice()) {
        None => {
            return Err(SensorError::NotANumber);
        },
        Some(value) => value,
    };
    Ok(Some(NetCounters { rx, tx }))
}

/// The cumulative traffic of the interfaces named in `allowed`, in the order
/// in which the network table `text` lists them.
pub fn parse_network(text: &[u8], allowed: &Vec<Vec<u8>>) -> (result: Result<
    Vec<NetCounters>,
    SensorError,
>)
    ensures
        match result {
            Ok(samples) => net_samples(text@, views(allowed@)) == Ok::<
                Seq<NetCounters>,
                SensorError,
            >(samples@),
            Err(error) => net_samples(text@, views(allowed@)) == Err::<
                Seq<NetCounters>,
                SensorError,
            >(error),
        },
{
    let all: Vec<Vec<u8>> = split_lines(text);
    let mut samples: Vec<NetCounters> = Vec::new();
    let mut failure: Option<SensorError> = None;
    let mut i: usize = 0;
    while i < all.len()
        invariant
            i <= all@.len(),
            views(all@) == lines(text@),
            match failure {
                None => net_samples_of(views(all@).take(i as int), views(allowed@)) == Ok::<
                    Seq<NetCounters>,
                    SensorError,
                >(samples@),
                Some(error) => net_samples_of(views(all@).take(i as int), views(allowed@))
                    == Err::<Seq<NetCounters>, SensorError>(error),
            },
        decreases all@.len() - i,
    {
        proof {
            let next = views(all@).take(i + 1);
            assert(next.drop_last() =~= views(all@).take(i as int));
            assert(next.last() == all@[i as int]@);
        }
        if failure.is_none() {
            match parse_net_line(all[i].as_slice(), allowed) {
                Ok(None) => {},
                Ok(Some(counters)) => {
                    samples.push(counters);
                },
                Err(error) => {
                    failure = Some(error);
                },
            }
        }
        i += 1;
    }
    proof {
        assert(views(all@).take(i as int) =~= views(all@));
    }
    match failure {
        None => Ok(samples),
        Some(error) => Err(error),
    }
}

/// `info` after a line with key `key` and value `value`.
fn apply_mem_entry(info: MemInfo, key: &[u8], value: u64) -> (after: MemInfo)
    ensures
        after == mem_with(info, key@, value),
{
    if bytes_eq(key, "MemTotal:".as_bytes()) {
        MemInfo { total: value, ..info }
    } else if bytes_eq(key, "MemFree:".as_bytes()) {
        MemInfo { free: value, ..info }
    } else if bytes_eq(key, "Buffers:".as_bytes()) {
        MemInfo { buffers: value, ..info }
    } else if bytes_eq(key, "Cached:".as_bytes()) {
        MemInfo { cached: value, ..info }
    } else {
        info
    }
}

/// The memory totals in the memory table `text`.
pub fn parse_memory(text: &[u8]) -> (result: Result<MemInfo, SensorError>)
    ensures
        result == mem_info(text@),
{
    let all: Vec<Vec<u8>> = split_lines(text);
    let mut state: Result<MemInfo, SensorError> = Ok(
        MemInfo { total: 0, free: 0, buffers: 0, cached: 0 },
    );
    let mut i: usize = 0;
    while i < all.len()
        invariant
            i <= all@.len(),
            views(all@) == lines(text@),
            state == mem_info_of(views(all@).take(i as int)),
        decreases all@.len() - i,
    {
        proof {
            let next = views(all@).take(i + 1);
            assert(next.drop_last() =~= views(all@).take(i as int));
            assert(next.last() == all@[i as int]@);
        }
        if let Ok(info) = state {
            let parts: Vec<Vec<u8>> = split_fields(all[i].as_slice());
            if parts.len() < 2 {
                state = Err(SensorError::MissingField);
            } else {
                match parse_u64(parts[1].as_slice()) {
                    None => {
                        state = Err(SensorError::NotANumber);
                    },
                    Some(value) => {
                        state = Ok(apply_mem_entry(info, parts[0].as_slice(), value));
                    },
                }
            }
        }
        i += 1;
    }
    proof {
        assert(views(all@).take(i as int) =~= views(all@));
    }
    state
}

} // verus!
