//! Usage figures of an assistant session, counted from its record file, and
//! the sums that describe the host.

use vstd::prelude::*;
use vstd::slice::*;
use vstd::string::*;

use crate::json::{parse_json, parsed_json, Json};
use crate::record::Timestamp;
use crate::text::same_text;

verus! {

/// Figures of any size: what the fields of [`ClaudeMetrics`] count, without
/// the limit of the machine.
pub struct Tally {
    pub input_tokens: nat,
    pub output_tokens: nat,
    pub cache_creation_tokens: nat,
    pub cache_read_tokens: nat,
    pub message_count: nat,
    pub tool_use_count: nat,
}

impl Tally {
    /// Nothing counted.
    pub open spec fn zero() -> Tally {
        Tally {
            input_tokens: 0,
            output_tokens: 0,
            cache_creation_tokens: 0,
            cache_read_tokens: 0,
            message_count: 0,
            tool_use_count: 0,
        }
    }

    /// The sum, field by field.
    pub open spec fn plus(self, other: Tally) -> Tally {
        Tally {
            input_tokens: self.input_tokens + other.input_tokens,
            output_tokens: self.output_tokens + other.output_tokens,
            cache_creation_tokens: self.cache_creation_tokens + other.cache_creation_tokens,
            cache_read_tokens: self.cache_read_tokens + other.cache_read_tokens,
            message_count: self.message_count + other.message_count,
            tool_use_count: self.tool_use_count + other.tool_use_count,
        }
    }

    /// Every figure fits a `u64`.
    pub open spec fn fits(self) -> bool {
        &&& self.input_tokens <= u64::MAX
        &&& self.output_tokens <= u64::MAX
        &&& self.cache_creation_tokens <= u64::MAX
        &&& self.cache_read_tokens <= u64::MAX
        &&& self.message_count <= u64::MAX
        &&& self.tool_use_count <= u64::MAX
    }
}

/// The usage figures of one session.
#[derive(Clone, Copy, Debug, PartialEq, Eq, Structural)]
pub struct ClaudeMetrics {
    pub input_tokens: u64,
    pub output_tokens: u64,
    pub cache_creation_tokens: u64,
    pub cache_read_tokens: u64,
    pub message_count: u64,
    pub tool_use_count: u64,
}

impl View for ClaudeMetrics {
    type V = Tally;

    open spec fn view(&self) -> Tally {
        Tally {
            input_tokens: self.input_tokens as nat,
            output_tokens: self.output_tokens as nat,
            cache_creation_tokens: self.cache_creation_tokens as nat,
            cache_read_tokens: self.cache_read_tokens as nat,
            message_count: self.message_count as nat,
            tool_use_count: self.tool_use_count as nat,
        }
    }
}

impl Default for ClaudeMetrics {
    /// Nothing counted.
    fn default() -> (r: Self)
        ensures
            r@ == Tally::zero(),
    {
        ClaudeMetrics {
            input_tokens: 0,
            output_tokens: 0,
            cache_creation_tokens: 0,
            cache_read_tokens: 0,
            message_count: 0,
            tool_use_count: 0,
        }
    }
}

impl ClaudeMetrics {
    /// The sum of two sets of figures, where every figure of it fits.
    pub fn checked_add(&self, other: &ClaudeMetrics) -> (r: Option<ClaudeMetrics>)
        ensures
            match r {
                Some(sum) => sum@ == self@.plus(other@),
                None => !self@.plus(other@).fits(),
            },
    {
        let input_tokens = match self.input_tokens.checked_add(other.input_tokens) {
            Some(n) => n,
            None => {
                return None;
            },
        };
        let output_tokens = match self.output_tokens.checked_add(other.output_tokens) {
            Some(n) => n,
            None => {
                return None;
            },
        };
        let cache_creation_tokens = match self.cache_creation_tokens.checked_add(
            other.cache_creation_tokens,
        ) {
            Some(n) => n,
            None => {
                return None;
            },
        };
        let cache_read_tokens = match self.cache_read_tokens.checked_add(other.cache_read_tokens) {
            Some(n) => n,
            None => {
                return None;
            },
        };
        let message_count = match self.message_count.checked_add(other.message_count) {
            Some(n) => n,
            None => {
                return None;
            },
        };
        let tool_use_count = match self.tool_use_count.checked_add(other.tool_use_count) {
            Some(n) => n,
            None => {
                return None;
            },
        };
        Some(
            ClaudeMetrics {
                input_tokens,
                output_tokens,
                cache_creation_tokens,
                cache_read_tokens,
                message_count,
                tool_use_count,
            },
        )
    }
}

/// The number under the name `key` in `usage`: zero where there is no such
/// member or it is no whole number that fits.
pub open spec fn figure(usage: Option<Json>, key: Seq<char>) -> nat {
    match usage {
        Some(u) => match u.member(key) {
            Some(value) => match value.whole() {
                Some(n) => n as nat,
                None => 0,
            },
            None => 0,
        },
        None => 0,
    }
}

/// The member `usage` of the member `message` of a record.
pub open spec fn usage_of(record: Json) -> Option<Json> {
    match record.member("message"@) {
        Some(message) => message.member("usage"@),
        None => None,
    }
}

/// The items of the member `content` of the member `message` of a record,
/// where it is an array.
pub open spec fn content_of(record: Json) -> Option<Seq<Json>> {
    match record.member("message"@) {
        Some(message) => match message.member("content"@) {
            Some(content) => content.items(),
            None => None,
        },
        None => None,
    }
}

/// The text under the name `type` in `value`, where there is one.
pub open spec fn kind_of(value: Json) -> Option<Seq<char>> {
    match value.member("type"@) {
        Some(kind) => kind.text(),
        None => None,
    }
}

/// The number of `blocks` of the kind `tool_use`.
pub open spec fn tool_uses(blocks: Seq<Json>) -> nat
    decreases blocks.len(),
{
    if blocks.len() == 0 {
        0
    } else {
        tool_uses(blocks.drop_last()) + if kind_of(blocks.last()) == Some("tool_use"@) {
            1nat
        } else {
            0nat
        }
    }
}

/// What one record of a session adds to the figures. A record of the kind
/// `assistant` adds the four token figures of its usage and the number of its
/// content blocks of the kind `tool_use`; one of the kind `user` adds one
/// message; any other adds nothing.
pub open spec fn tally_of(record: Json) -> Tally {
    if kind_of(record) == Some("assistant"@) {
        Tally {
            input_tokens: figure(usage_of(record), "input_tokens"@),
            output_tokens: figure(usage_of(record), "output_tokens"@),
            cache_creation_tokens: figure(usage_of(record), "cache_creation_input_tokens"@),
            cache_read_tokens: figure(usage_of(record), "cache_read_input_tokens"@),
            message_count: 0,
            tool_use_count: match content_of(record) {
                Some(blocks) => tool_uses(blocks),
                None => 0,
            },
        }
    } else if kind_of(record) == Some("user"@) {
        Tally { message_count: 1, ..Tally::zero() }
    } else {
        Tally::zero()
    }
}

/// Whether the text under the name `type` in `value` is `kind`.
fn is_kind(value: &Json, kind: &str) -> (r: bool)
    ensures
        r == (kind_of(*value) == Some(kind@)),
{
    match value.get("type") {
        Some(found) => match found.as_str() {
            Some(text) => same_text(text, kind),
            None => false,
        },
        None => false,
    }
}

fn read_figure(usage: Option<&Json>, key: &str) -> (r: u64)
    ensures
        r == figure(
            match usage {
                Some(u) => Some(*u),
                None => None,
            },
            key@,
        ),
{
    match usage {
        Some(u) => match u.get(key) {
            Some(value) => match value.as_u64() {
                Some(n) => n,
                None => 0,
            },
            None => 0,
        },
        None => 0,
    }
}

fn count_tool_uses(blocks: &Vec<Json>) -> (r: u64)
    ensures
        r == tool_uses(blocks@),
{
    let mut count: u64 = 0;
    let mut i: usize = 0;
    assert(blocks@.take(0) =~= Seq::<Json>::empty());
    while i < blocks.len()
        invariant
            i <= blocks.len(),
            count <= i,
            count == tool_uses(blocks@.take(i as int)),
        decreases blocks.len() - i,
    {
        proof {
            assert(blocks@.take(i + 1).drop_last() =~= blocks@.take(i as int));
        }
        if is_kind(&blocks[i], "tool_use") {
            count = count + 1;
        }
        i = i + 1;
    }
    assert(blocks@.take(i as int) =~= blocks@);
    count
}

/// What one record of a session adds to the figures.
pub fn line_tally(record: &Json) -> (r: ClaudeMetrics)
    ensures
        r@ == tally_of(*record),
{
    if is_kind(record, "assistant") {
        let usage = match record.get("message") {
            Some(message) => message.get("usage"),
            None => None,
        };
        let content = match record.get("message") {
            Some(message) => match message.get("content") {
                Some(content) => content.as_array(),
                None => None,
            },
            None => None,
        };
        let tool_use_count = match content {
            Some(blocks) => count_tool_uses(blocks),
            None => 0,
        };
        ClaudeMetrics {
            input_tokens: read_figure(usage, "input_tokens"),
            output_tokens: read_figure(usage, "output_tokens"),
            cache_creation_tokens: read_figure(usage, "cache_creation_input_tokens"),
            cache_read_tokens: read_figure(usage, "cache_read_input_tokens"),
            message_count: 0,
            tool_use_count,
        }
    } else if is_kind(record, "user") {
        ClaudeMetrics {
            input_tokens: 0,
            output_tokens: 0,
            cache_creation_tokens: 0,
            cache_read_tokens: 0,
            message_count: 1,
            tool_use_count: 0,
        }
    } else {
        ClaudeMetrics::default()
    }
}

/// What one line of a session file adds to the figures: what its record adds
/// where the line is a JSON document, nothing otherwise.
pub open spec fn tally_of_text(line: Seq<u8>) -> Tally {
    match parsed_json(line) {
        Some(record) => tally_of(record),
        None => Tally::zero(),
    }
}

/// The number of bytes from position `from` of `data` up to the next newline
/// or the end.
pub open spec fn line_len(data: Seq<u8>, from: int) -> nat
    decreases data.len() - from,
{
    if from < 0 || from >= data.len() || data[from] == 10u8 {
        0
    } else {
        1 + line_len(data, from + 1)
    }
}

/// What the lines of `data` from position `from` on add to the figures, a line
/// being what stands between two newlines.
pub open spec fn total_from(data: Seq<u8>, from: int) -> Tally
    decreases data.len() - from,
{
    if from < 0 || from >= data.len() {
        Tally::zero()
    } else {
        let end = from + line_len(data, from);
        let first = tally_of_text(data.subrange(from, end));
        if end < data.len() {
            first.plus(total_from(data, end + 1))
        } else {
            first
        }
    }
}

/// What a session file with the content `data` adds up to.
pub open spec fn session_total(data: Seq<u8>) -> Tally {
    total_from(data, 0)
}

proof fn lemma_line_len_bound(data: Seq<u8>, from: int)
    requires
        0 <= from <= data.len(),
    ensures
        from + line_len(data, from) <= data.len(),
    decreases data.len() - from,
{
    if from < data.len() && data[from] != 10u8 {
        lemma_line_len_bound(data, from + 1);
    }
}

/// The figures from a line on are those of the line and those of what follows
/// it.
proof fn lemma_total_step(data: Seq<u8>, from: int, end: int)
    requires
        0 <= from < data.len(),
        end == from + line_len(data, from),
    ensures
        end <= data.len(),
        total_from(data, from) == tally_of_text(data.subrange(from, end)).plus(
            total_from(data, end + 1),
        ),
{
    lemma_line_len_bound(data, from);
}

/// Adding nothing changes nothing.
proof fn lemma_plus_zero(a: Tally)
    ensures
        a.plus(Tally::zero()) == a,
        Tally::zero().plus(a) == a,
{
}

/// Adding in two steps is adding the sum, and a sum that fits has parts that
/// fit.
proof fn lemma_plus(a: Tally, b: Tally, c: Tally)
    ensures
        a.plus(b).plus(c) == a.plus(b.plus(c)),
        a.plus(b.plus(c)).fits() ==> a.plus(b).fits(),
{
}

/// What one line of a session file adds to the figures.
pub fn line_metrics(line: &[u8]) -> (r: ClaudeMetrics)
    ensures
        r@ == tally_of_text(line@),
{
    match parse_json(line) {
        Some(record) => line_tally(&record),
        None => ClaudeMetrics::default(),
    }
}

/// The usage figures of a session, counted over the lines of its record file.
/// A line that is no JSON document counts for nothing. `None`: a figure has
/// outgrown a `u64`.
pub fn parse_claude_metrics(contents: &[u8]) -> (r: Option<ClaudeMetrics>)
    ensures
        match r {
            Some(metrics) => metrics@ == session_total(contents@),
            None => !session_total(contents@).fits(),
        },
{
    let len = contents.len();
    let mut total = ClaudeMetrics::default();
    let mut pos: usize = 0;
    proof {
        lemma_plus_zero(total_from(contents@, 0));
    }
    while pos < len
        invariant
            len == contents.len(),
            pos <= len,
            total@.plus(total_from(contents@, pos as int)) == session_total(contents@),
        decreases len - pos,
    {
        let mut end: usize = pos;
        while end < len && contents[end] != 10u8
            invariant
                len == contents.len(),
                pos <= end <= len,
                line_len(contents@, pos as int) == (end - pos) + line_len(contents@, end as int),
            decreases len - end,
        {
            end = end + 1;
        }
        let line = slice_subrange(contents, pos, end);
        let added = line_metrics(line);
        proof {
            lemma_total_step(contents@, pos as int, end as int);
            lemma_plus(total@, added@, total_from(contents@, end + 1));
        }
        match total.checked_add(&added) {
            Some(sum) => {
                total = sum;
            },
            None => {
                return None;
            },
        }
        if end < len {
            pos = end + 1;
        } else {
            pos = len;
        }
    }
    proof {
        lemma_plus_zero(total@);
    }
    Some(total)
}

/// The name of the directory that holds the session files of a project: the
/// path of the project with every `/` turned into `-`.
pub open spec fn session_dir_text(project_dir: Seq<char>) -> Seq<char> {
    project_dir.map_values(
        |c: char|
            if c == '/' {
                '-'
            } else {
                c
            },
    )
}

/// The name of the directory that holds the session files of the project at
/// `project_dir`.
pub fn session_dir_name(project_dir: &str) -> (r: String)
    ensures
        r@ == session_dir_text(project_dir@),
{
    let n = project_dir.unicode_len();
    let mut out = String::new();
    let mut i: usize = 0;
    proof {
        reveal_strlit("-");
        assert(out@ =~= session_dir_text(project_dir@.take(0)));
    }
    while i < n
        invariant
            n == project_dir@.len(),
            i <= n,
            out@ == session_dir_text(project_dir@.take(i as int)),
            "-"@ == seq!['-'],
        decreases n - i,
    {
        let c = project_dir.get_char(i);
        let ghost prior = out@;
        if c == '/' {
            out.append("-");
        } else {
            out.append(project_dir.substring_char(i, i + 1));
        }
        proof {
            assert(project_dir@.take(i + 1) =~= project_dir@.take(i as int).push(project_dir@[i as int]));
            assert(out@ =~= session_dir_text(project_dir@.take(i + 1)));
        }
        i = i + 1;
    }
    proof {
        assert(project_dir@.take(i as int) =~= project_dir@);
    }
    out
}

/// A file found in the directory of a project's sessions: its name, and when
/// it was last modified, where that is known.
#[derive(Debug)]
pub struct SessionFile {
    pub name: String,
    pub modified: Option<Timestamp>,
}

/// `name` is the name of a session file: it ends in `.jsonl` and has
/// something before that.
pub open spec fn is_session_name(name: Seq<char>) -> bool {
    name.len() > 6 && name.subrange(name.len() - 6, name.len() as int) == ".jsonl"@
}

/// The file can be chosen: it is a session file, and it is known when it was
/// last modified.
pub open spec fn is_candidate(file: SessionFile) -> bool {
    is_session_name(file.name@) && file.modified is Some
}

/// Whether `name` is the name of a session file.
pub fn is_session_file(name: &str) -> (r: bool)
    ensures
        r == is_session_name(name@),
{
    let n = name.unicode_len();
    if n <= 6 {
        return false;
    }
    same_text(name.substring_char(n - 6, n), ".jsonl")
}

/// The session file to read: the one last modified among the session files of
/// which that time is known, the first in `files` where several were modified
/// at that same time. `None`: there is no such file.
pub fn latest_session_file(files: &Vec<SessionFile>) -> (r: Option<usize>)
    ensures
        match r {
            Some(at) => {
                &&& at < files.len()
                &&& is_candidate(files[at as int])
                &&& forall|j: int|
                    0 <= j < files.len() && is_candidate(#[trigger] files[j])
                        ==> !files[at as int].modified->0.before(files[j].modified->0)
                &&& forall|j: int|
                    0 <= j < at && is_candidate(#[trigger] files[j]) ==> files[j].modified->0.before(
                        files[at as int].modified->0,
                    )
            },
            None => forall|j: int| 0 <= j < files.len() ==> !is_candidate(#[trigger] files[j]),
        },
{
    let mut best: Option<usize> = None;
    let mut i: usize = 0;
    while i < files.len()
        invariant
            i <= files.len(),
            match best {
                Some(at) => {
                    &&& at < i
                    &&& is_candidate(files[at as int])
                    &&& forall|j: int|
                        0 <= j < i && is_candidate(#[trigger] files[j])
                            ==> !files[at as int].modified->0.before(files[j].modified->0)
                    &&& forall|j: int|
                        0 <= j < at && is_candidate(#[trigger] files[j])
                            ==> files[j].modified->0.before(files[at as int].modified->0)
                },
                None => forall|j: int| 0 <= j < i ==> !is_candidate(#[trigger] files[j]),
            },
        decreases files.len() - i,
    {
        let file = &files[i];
        if is_session_file(file.name.as_str()) {
            match file.modified {
                Some(modified) => {
                    match best {
                        None => {
                            best = Some(i);
                        },
                        Some(at) => {
                            let leads = match files[at].modified {
                                Some(prev) => prev.is_before(&modified),
                                None => false,
                            };
                            if leads {
                                best = Some(i);
                            }
                        },
                    }
                },
                None => {},
            }
        }
        i = i + 1;
    }
    best
}

/// The size of one disk and what is free of it, in bytes.
#[derive(Clone, Copy, Debug, PartialEq, Eq, Structural)]
pub struct DiskSpace {
    pub total: u64,
    pub available: u64,
}

/// What is used and what there is on all disks together, in bytes.
#[derive(Clone, Copy, Debug, PartialEq, Eq, Structural)]
pub struct DiskUsage {
    pub used: u64,
    pub total: u64,
}

/// What was received and sent over one network interface, in bytes.
#[derive(Clone, Copy, Debug, PartialEq, Eq, Structural)]
pub struct Traffic {
    pub received: u64,
    pub transmitted: u64,
}

/// The usage after one more disk is counted in: its size is added to both
/// figures, and what is free of it is taken from the first. `None` where a
/// figure leaves the range of a `u64` on the way.
pub open spec fn count_disk(sum: DiskUsage, disk: DiskSpace) -> Option<DiskUsage> {
    if sum.used + disk.total <= u64::MAX && sum.used + disk.total >= disk.available && sum.total
        + disk.total <= u64::MAX {
        Some(
            DiskUsage {
                used: (sum.used + disk.total - disk.available) as u64,
                total: (sum.total + disk.total) as u64,
            },
        )
    } else {
        None
    }
}

/// The usage of `disks`, counted in one after the other from nothing.
pub open spec fn disk_sum(disks: Seq<DiskSpace>) -> Option<DiskUsage>
    decreases disks.len(),
{
    if disks.len() == 0 {
        Some(DiskUsage { used: 0, total: 0 })
    } else {
        match disk_sum(disks.drop_last()) {
            Some(sum) => count_disk(sum, disks.last()),
            None => None,
        }
    }
}

/// The usage of `disks`. `None`: a figure has left the range of a `u64`.
pub fn disk_usage(disks: &Vec<DiskSpace>) -> (r: Option<DiskUsage>)
    ensures
        r == disk_sum(disks@),
{
    let mut sum = DiskUsage { used: 0, total: 0 };
    let mut i: usize = 0;
    assert(disks@.take(0) =~= Seq::<DiskSpace>::empty());
    while i < disks.len()
        invariant
            i <= disks.len(),
            disk_sum(disks@.take(i as int)) == Some(sum),
        decreases disks.len() - i,
    {
        let disk = disks[i];
        proof {
            assert(disks@.take(i + 1).drop_last() =~= disks@.take(i as int));
        }
        let grown = match sum.used.checked_add(disk.total) {
            Some(n) => n,
            None => {
                proof {
                    lemma_disk_sum_fails(disks@, i + 1);
                }
                return None;
            },
        };
        let total = match sum.total.checked_add(disk.total) {
            Some(n) => n,
            None => {
                proof {
                    lemma_disk_sum_fails(disks@, i + 1);
                }
                return None;
            },
        };
        if grown < disk.available {
            proof {
                lemma_disk_sum_fails(disks@, i + 1);
            }
            return None;
        }
        sum = DiskUsage { used: grown - disk.available, total };
        i = i + 1;
    }
    assert(disks@.take(i as int) =~= disks@);
    Some(sum)
}

/// Once the count has failed on the first `k` disks, it fails on all.
proof fn lemma_disk_sum_fails(disks: Seq<DiskSpace>, k: int)
    requires
        0 <= k <= disks.len(),
        disk_sum(disks.take(k)) is None,
    ensures
        disk_sum(disks) is None,
    decreases disks.len() - k,
{
    if k < disks.len() {
        assert(disks.take(k + 1).drop_last() =~= disks.take(k));
        lemma_disk_sum_fails(disks, k + 1);
    } else {
        assert(disks.take(k) =~= disks);
    }
}

/// The traffic after one more interface is counted in. `None` where a figure
/// outgrows a `u64`.
pub open spec fn count_traffic(sum: Traffic, one: Traffic) -> Option<Traffic> {
    if sum.received + one.received <= u64::MAX && sum.transmitted + one.transmitted <= u64::MAX {
        Some(
            Traffic {
                received: (sum.received + one.received) as u64,
                transmitted: (sum.transmitted + one.transmitted) as u64,
            },
        )
    } else {
        None
    }
}

/// The traffic over `interfaces`, counted in one after the other from nothing.
pub open spec fn traffic_sum(interfaces: Seq<Traffic>) -> Option<Traffic>
    decreases interfaces.len(),
{
    if interfaces.len() == 0 {
        Some(Traffic { received: 0, transmitted: 0 })
    } else {
        match traffic_sum(interfaces.drop_last()) {
            Some(sum) => count_traffic(sum, interfaces.last()),
            None => None,
        }
    }
}

/// Once the count has failed on the first `k` interfaces, it fails on all.
proof fn lemma_traffic_sum_fails(interfaces: Seq<Traffic>, k: int)
    requires
        0 <= k <= interfaces.len(),
        traffic_sum(interfaces.take(k)) is None,
    ensures
        traffic_sum(interfaces) is None,
    decreases interfaces.len() - k,
{
    if k < interfaces.len() {
        assert(interfaces.take(k + 1).drop_last() =~= interfaces.take(k));
        lemma_traffic_sum_fails(interfaces, k + 1);
    } else {
        assert(interfaces.take(k) =~= interfaces);
    }
}

/// The traffic over all `interfaces` together. `None`: a figure has outgrown
/// a `u64`.
pub fn network_traffic(interfaces: &Vec<Traffic>) -> (r: Option<Traffic>)
    ensures
        r == traffic_sum(interfaces@),
{
    let mut sum = Traffic { received: 0, transmitted: 0 };
    let mut i: usize = 0;
    assert(interfaces@.take(0) =~= Seq::<Traffic>::empty());
    while i < interfaces.len()
        invariant
            i <= interfaces.len(),
            traffic_sum(interfaces@.take(i as int)) == Some(sum),
        decreases interfaces.len() - i,
    {
        let one = interfaces[i];
        proof {
            assert(interfaces@.take(i + 1).drop_last() =~= interfaces@.take(i as int));
        }
        let received = match sum.received.checked_add(one.received) {
            Some(n) => n,
            None => {
                proof {
                    lemma_traffic_sum_fails(interfaces@, i + 1);
                }
                return None;
            },
        };
        let transmitted = match sum.transmitted.checked_add(one.transmitted) {
            Some(n) => n,
            None => {
                proof {
                    lemma_traffic_sum_fails(interfaces@, i + 1);
                }
                return None;
            },
        };
        sum = Traffic { received, transmitted };
        i = i + 1;
    }
    assert(interfaces@.take(i as int) =~= interfaces@);
    Some(sum)
}

} // verus!
