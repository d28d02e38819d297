//! Readings taken from the text that the system reports: `/proc` status
//! files and the output of `ps` and `vm_stat`. The text is read elsewhere
//! and handed in; here it is parsed.

use crate::monitoring::NetworkIO;
use crate::text::{
    contains_str, eq_str, has_prefix, join, join_strings, parse_u32, parse_u32_spec, parse_u64,
    parse_u64_spec, parse_usize, parse_usize_spec, seq_contains, starts_with_str, strings_view,
};
use crate::tokens::{
    find_char, find_str, first_occurrence, lines, rfind_char, split_lines, split_words, strip_end,
    strip_end_str, trim, trim_str, words,
};
use vstd::prelude::*;

verus! {

/// Kilobytes as a `/proc/meminfo` line gives them: the second word parsed
/// as a number (`None` when it is not one), or 0 when there is no second word.
pub open spec fn meminfo_value(line: Seq<char>) -> Option<u64> {
    let w = words(line);
    if w.len() >= 2 {
        parse_u64_spec(w[1])
    } else {
        Some(0)
    }
}

/// The kilobytes of a `/proc/meminfo` line; `None` when its second word is
/// not a number.
pub fn memory_from_line(line: &str) -> (r: Option<u64>)
    ensures
        r == meminfo_value(line@),
{
    let w = split_words(line);
    if w.len() >= 2 {
        assert(w@[1]@ == strings_view(w@)[1]);
        parse_u64(w[1].as_str())
    } else {
        Some(0)
    }
}

/// The total and available kilobytes that the lines of `/proc/meminfo`
/// give, the last `MemTotal:` and `MemAvailable:` line winning; `None` when
/// one of those lines has a second word that is not a number.
pub open spec fn meminfo_scan(ls: Seq<Seq<char>>) -> Option<(u64, u64)>
    decreases ls.len(),
{
    if ls.len() == 0 {
        Some((0, 0))
    } else {
        match meminfo_scan(ls.drop_last()) {
            None => None,
            Some((total, available)) => {
                let l = ls.last();
                if has_prefix(l, "MemTotal:"@) {
                    match meminfo_value(l) {
                        Some(v) => Some((v, available)),
                        None => None,
                    }
                } else if has_prefix(l, "MemAvailable:"@) {
                    match meminfo_value(l) {
                        Some(v) => Some((total, v)),
                        None => None,
                    }
                } else {
                    Some((total, available))
                }
            },
        }
    }
}

/// Used and available memory, in bytes, from the text of `/proc/meminfo`:
/// the total less the available kilobytes, and the available kilobytes,
/// each times 1024. `None` when a `MemTotal:` or `MemAvailable:` line holds
/// no number where one belongs.
pub fn meminfo_memory(content: &str) -> (r: Option<(u64, u64)>)
    requires
        meminfo_scan(lines(content@)) matches Some((t, a)) ==> a <= t && (t - a) * 1024 <= u64::MAX
            && a * 1024 <= u64::MAX,
    ensures
        r == match meminfo_scan(lines(content@)) {
            Some((t, a)) => Some((((t - a) * 1024) as u64, (a * 1024) as u64)),
            None => None,
        },
{
    let ls = split_lines(content);
    let ghost lv = strings_view(ls@);
    let mut total: u64 = 0;
    let mut available: u64 = 0;
    let mut i: usize = 0;
    assert(lv.take(0) =~= Seq::<Seq<char>>::empty());
    while i < ls.len()
        invariant
            lv == strings_view(ls@),
            lv == lines(content@),
            0 <= i <= ls@.len(),
            meminfo_scan(lv.take(i as int)) == Some((total, available)),
        decreases ls.len() - i,
    {
        let ghost t = lv.take(i + 1);
        assert(t.drop_last() =~= lv.take(i as int));
        assert(t.last() == ls@[i as int]@);
        let line = ls[i].as_str();
        if starts_with_str(line, "MemTotal:") {
            match memory_from_line(line) {
                Some(v) => total = v,
                None => {
                    proof {
                        lemma_meminfo_none_stays(lv, i + 1);
                    }
                    return None;
                },
            }
        } else if starts_with_str(line, "MemAvailable:") {
            match memory_from_line(line) {
                Some(v) => available = v,
                None => {
                    proof {
                        lemma_meminfo_none_stays(lv, i + 1);
                    }
                    return None;
                },
            }
        }
        i = i + 1;
    }
    assert(lv.take(i as int) =~= lv);
    Some(((total - available) * 1024, available * 1024))
}

/// Once a prefix of the lines has no reading, the whole has none.
proof fn lemma_meminfo_none_stays(ls: Seq<Seq<char>>, k: int)
    requires
        0 <= k <= ls.len(),
        meminfo_scan(ls.take(k)) is None,
    ensures
        meminfo_scan(ls) is None,
    decreases ls.len() - k,
{
    if k < ls.len() {
        assert(ls.take(k + 1).drop_last() =~= ls.take(k));
        lemma_meminfo_none_stays(ls, k + 1);
    } else {
        assert(ls.take(k) =~= ls);
    }
}

/// The second word of the first `VmRSS:` line that has one.
pub open spec fn rss_field(ls: Seq<Seq<char>>) -> Option<Seq<char>>
    decreases ls.len(),
{
    if ls.len() == 0 {
        None
    } else if has_prefix(ls[0], "VmRSS:"@) && words(ls[0]).len() >= 2 {
        Some(words(ls[0])[1])
    } else {
        rss_field(ls.drop_first())
    }
}

/// The resident memory of a process, in kilobytes, from the text of its
/// `/proc/<pid>/status`: the second word of the first `VmRSS:` line that
/// has one, or 0 when there is no such line. `None` when that word is not
/// a number.
pub fn rss_kilobytes(status: &str) -> (r: Option<usize>)
    ensures
        r == match rss_field(lines(status@)) {
            None => Some(0usize),
            Some(f) => parse_usize_spec(f),
        },
{
    let ls = split_lines(status);
    let ghost lv = strings_view(ls@);
    let mut i: usize = 0;
    assert(lv.skip(0) =~= lv);
    while i < ls.len()
        invariant
            lv == strings_view(ls@),
            lv == lines(status@),
            0 <= i <= ls@.len(),
            rss_field(lv) == rss_field(lv.skip(i as int)),
        decreases ls.len() - i,
    {
        let line = ls[i].as_str();
        assert(lv.skip(i as int)[0] == line@);
        if starts_with_str(line, "VmRSS:") {
            let w = split_words(line);
            if w.len() >= 2 {
                assert(w@[1]@ == strings_view(w@)[1]);
                return parse_usize(w[1].as_str());
            }
        }
        assert(lv.skip(i as int).drop_first() =~= lv.skip(i + 1));
        i = i + 1;
    }
    assert(lv.skip(i as int).len() == 0);
    Some(0)
}

/// The resident memory of a process, in bytes: its kilobytes times 1024.
pub fn rss_bytes(status: &str) -> (r: Option<usize>)
    requires
        rss_field(lines(status@)) matches Some(f) ==> (parse_usize_spec(f) matches Some(v) ==> v * 1024
            <= usize::MAX),
    ensures
        r == match rss_field(lines(status@)) {
            None => Some(0usize),
            Some(f) => match parse_usize_spec(f) {
                Some(v) => Some((v * 1024) as usize),
                None => None,
            },
        },
{
    match rss_kilobytes(status) {
        Some(kb) => Some(kb * 1024),
        None => None,
    }
}

/// The thread count of a process from the text of its `/proc/<pid>/stat`:
/// the twentieth word parsed as a number, or 1 when there is no such word
/// or it is not one.
pub open spec fn thread_count_of(stat: Seq<char>) -> u32 {
    let w = words(stat);
    if w.len() > 19 {
        match parse_u32_spec(w[19]) {
            Some(v) => v,
            None => 1,
        }
    } else {
        1
    }
}

/// The thread count of a process from the text of its `/proc/<pid>/stat`.
pub fn thread_count(stat: &str) -> (r: u32)
    ensures
        r == thread_count_of(stat@),
{
    let w = split_words(stat);
    if w.len() > 19 {
        assert(w@[19]@ == strings_view(w@)[19]);
        match parse_u32(w[19].as_str()) {
            Some(v) => v,
            None => 1,
        }
    } else {
        1
    }
}

/// The page count of a `vm_stat` line: the text after its first `:`,
/// trimmed and without trailing dots, parsed as a number, or 0 when there is
/// no `:` or no number.
pub open spec fn pages_value(line: Seq<char>) -> u64 {
    match line.index_of_first(':') {
        Some(p) => match parse_u64_spec(strip_end(trim(line.skip(p + 1)), '.')) {
            Some(v) => v,
            None => 0,
        },
        None => 0,
    }
}

/// The page count of a `vm_stat` line.
pub fn pages_from_line(line: &str) -> (r: u64)
    ensures
        r == pages_value(line@),
{
    let n = line.unicode_len();
    match find_char(line, ':') {
        Some(p) => {
            let after = line.substring_char(p + 1, n);
            assert(after@ =~= line@.skip(p + 1));
            let trimmed = trim_str(after);
            let number = strip_end_str(trimmed.as_str(), '.');
            match parse_u64(number.as_str()) {
                Some(v) => v,
                None => 0,
            }
        },
        None => 0,
    }
}

/// The page size a `vm_stat` header line gives: the number between
/// `page size of ` and the next space after it.
pub open spec fn page_size_in(line: Seq<char>) -> Option<u64> {
    match first_occurrence(line, "page size of "@) {
        Some(p) => {
            let part = line.skip((p + "page size of "@.len()) as int);
            match part.index_of_first(' ') {
                Some(e) => parse_u64_spec(part.take(e)),
                None => None,
            }
        },
        None => None,
    }
}

/// The page size of a `vm_stat` header line, when it gives one.
fn page_size_from_line(line: &str) -> (r: Option<u64>)
    ensures
        r == page_size_in(line@),
{
    let marker = "page size of ";
    let n = line.unicode_len();
    let m = marker.unicode_len();
    match find_str(line, marker) {
        Some(p) => {
            let skip = p + m;
            let part = line.substring_char(skip, n);
            assert(part@ =~= line@.skip(skip as int));
            match find_char(part, ' ') {
                Some(e) => {
                    let number = part.substring_char(0, e);
                    assert(number@ =~= part@.take(e as int));
                    parse_u64(number)
                },
                None => None,
            }
        },
        None => None,
    }
}

/// What the lines of `vm_stat` tell: the page size and the free, wired,
/// active and inactive page counts.
#[derive(Debug, Clone, Copy, PartialEq, Eq, Structural)]
pub struct VmPages {
    pub page_size: u64,
    pub free: u64,
    pub wired: u64,
    pub active: u64,
    pub inactive: u64,
}

/// The page counts of `vm_stat` lines: a page size of 4096 and no pages to
/// begin with; each line that mentions the page size, free, wired-down,
/// active or inactive pages sets that figure, the last such line winning.
pub open spec fn vm_scan(ls: Seq<Seq<char>>) -> VmPages
    decreases ls.len(),
{
    if ls.len() == 0 {
        VmPages { page_size: 4096, free: 0, wired: 0, active: 0, inactive: 0 }
    } else {
        let p = vm_scan(ls.drop_last());
        let l = ls.last();
        if seq_contains(l, "page size of"@) {
            match page_size_in(l) {
                Some(size) => VmPages { page_size: size, ..p },
                None => p,
            }
        } else if seq_contains(l, "Pages free:"@) {
            VmPages { free: pages_value(l), ..p }
        } else if seq_contains(l, "Pages wired down:"@) {
            VmPages { wired: pages_value(l), ..p }
        } else if seq_contains(l, "Pages active:"@) {
            VmPages { active: pages_value(l), ..p }
        } else if seq_contains(l, "Pages inactive:"@) {
            VmPages { inactive: pages_value(l), ..p }
        } else {
            p
        }
    }
}

/// Used and free memory, in bytes, from the output of `vm_stat`: wired,
/// active and inactive pages, and free pages, each times the page size.
pub fn vm_stat_memory(output: &str) -> (r: (u64, u64))
    requires
        ({
            let v = vm_scan(lines(output@));
            &&& v.wired + v.active + v.inactive <= u64::MAX
            &&& (v.wired + v.active + v.inactive) * v.page_size <= u64::MAX
            &&& v.free * v.page_size <= u64::MAX
        }),
    ensures
        ({
            let v = vm_scan(lines(output@));
            r == (((v.wired + v.active + v.inactive) * v.page_size) as u64, (v.free * v.page_size) as u64)
        }),
{
    let ls = split_lines(output);
    let ghost lv = strings_view(ls@);
    let mut v = VmPages { page_size: 4096, free: 0, wired: 0, active: 0, inactive: 0 };
    let mut i: usize = 0;
    assert(lv.take(0) =~= Seq::<Seq<char>>::empty());
    while i < ls.len()
        invariant
            lv == strings_view(ls@),
            lv == lines(output@),
            0 <= i <= ls@.len(),
            vm_scan(lv.take(i as int)) == v,
        decreases ls.len() - i,
    {
        let ghost t = lv.take(i + 1);
        assert(t.drop_last() =~= lv.take(i as int));
        assert(t.last() == ls@[i as int]@);
        let line = ls[i].as_str();
        if contains_str(line, "page size of") {
            match page_size_from_line(line) {
                Some(size) => v.page_size = size,
                None => {},
            }
        } else if contains_str(line, "Pages free:") {
            v.free = pages_from_line(line);
        } else if contains_str(line, "Pages wired down:") {
            v.wired = pages_from_line(line);
        } else if contains_str(line, "Pages active:") {
            v.active = pages_from_line(line);
        } else if contains_str(line, "Pages inactive:") {
            v.inactive = pages_from_line(line);
        }
        i = i + 1;
    }
    assert(lv.take(i as int) =~= lv);
    ((v.wired + v.active + v.inactive) * v.page_size, v.free * v.page_size)
}

/// A number of a `/proc/net/dev` line: the word parsed, or 0 when it is not
/// a number.
pub open spec fn counter(w: Seq<char>) -> nat {
    match parse_u64_spec(w) {
        Some(v) => v as nat,
        None => 0,
    }
}

/// The lines of `/proc/net/dev` after its two header lines.
pub open spec fn net_rows(content: Seq<char>) -> Seq<Seq<char>> {
    let ls = lines(content);
    if ls.len() >= 2 {
        ls.skip(2)
    } else {
        Seq::empty()
    }
}

/// Whether a `/proc/net/dev` row counts: it has at least ten words and is
/// not the loopback interface.
pub open spec fn counted_row(w: Seq<Seq<char>>) -> bool {
    w.len() >= 10 && !has_prefix(w[0], "lo:"@)
}

/// The received bytes and packets and the sent bytes and packets of the
/// counted rows, summed.
pub open spec fn net_sum(rows: Seq<Seq<char>>) -> (nat, nat, nat, nat)
    decreases rows.len(),
{
    if rows.len() == 0 {
        (0, 0, 0, 0)
    } else {
        let s = net_sum(rows.drop_last());
        let w = words(rows.last());
        if counted_row(w) {
            (s.0 + counter(w[1]), s.1 + counter(w[2]), s.2 + counter(w[9]), s.3 + counter(w[10]))
        } else {
            s
        }
    }
}

proof fn lemma_net_sum_prefix(rows: Seq<Seq<char>>, k: int)
    requires
        0 <= k <= rows.len(),
    ensures
        net_sum(rows.take(k)).0 <= net_sum(rows).0,
        net_sum(rows.take(k)).1 <= net_sum(rows).1,
        net_sum(rows.take(k)).2 <= net_sum(rows).2,
        net_sum(rows.take(k)).3 <= net_sum(rows).3,
    decreases rows.len(),
{
    if k < rows.len() {
        lemma_net_sum_prefix(rows.drop_last(), k);
        assert(rows.drop_last().take(k) =~= rows.take(k));
    } else {
        assert(rows.take(k) =~= rows);
    }
}

/// Network traffic from the text of `/proc/net/dev`: the counters of every
/// interface but the loopback one, summed.
pub fn network_totals(content: &str) -> (r: NetworkIO)
    requires
        forall|i: int|
            0 <= i < net_rows(content@).len() ==> #[trigger] counted_row(words(net_rows(content@)[i]))
                ==> words(net_rows(content@)[i]).len() >= 11,
        net_sum(net_rows(content@)).0 <= u64::MAX,
        net_sum(net_rows(content@)).1 <= u64::MAX,
        net_sum(net_rows(content@)).2 <= u64::MAX,
        net_sum(net_rows(content@)).3 <= u64::MAX,
    ensures
        r.bytes_received == net_sum(net_rows(content@)).0,
        r.packets_received == net_sum(net_rows(content@)).1,
        r.bytes_sent == net_sum(net_rows(content@)).2,
        r.packets_sent == net_sum(net_rows(content@)).3,
{
    let ls = split_lines(content);
    let ghost rows = net_rows(content@);
    let mut io = NetworkIO { bytes_received: 0, bytes_sent: 0, packets_received: 0, packets_sent: 0 };
    if ls.len() < 2 {
        return io;
    }
    let mut i: usize = 2;
    assert(rows.take(0) =~= Seq::<Seq<char>>::empty());
    while i < ls.len()
        invariant
            rows == strings_view(ls@).skip(2),
            rows == net_rows(content@),
            2 <= i <= ls@.len(),
            forall|j: int|
                0 <= j < rows.len() ==> #[trigger] counted_row(words(rows[j])) ==> words(rows[j]).len() >= 11,
            net_sum(rows).0 <= u64::MAX,
            net_sum(rows).1 <= u64::MAX,
            net_sum(rows).2 <= u64::MAX,
            net_sum(rows).3 <= u64::MAX,
            net_sum(rows.take(i - 2)) == (
                io.bytes_received as nat,
                io.packets_received as nat,
                io.bytes_sent as nat,
                io.packets_sent as nat,
            ),
        decreases ls.len() - i,
    {
        let k: Ghost<int> = Ghost(i - 2);
        let ghost t = rows.take(k@ + 1);
        assert(t.drop_last() =~= rows.take(k@));
        assert(t.last() == rows[k@]);
        assert(rows[k@] == ls@[i as int]@);
        proof {
            lemma_net_sum_prefix(rows, k@ + 1);
        }
        let w = split_words(ls[i].as_str());
        if w.len() >= 10 && !starts_with_str(w[0].as_str(), "lo:") {
            assert(w@[0]@ == strings_view(w@)[0]);
            assert(counted_row(words(rows[k@])));
            assert(w@[1]@ == strings_view(w@)[1]);
            assert(w@[2]@ == strings_view(w@)[2]);
            assert(w@[9]@ == strings_view(w@)[9]);
            assert(w@[10]@ == strings_view(w@)[10]);
            let rx_bytes = match parse_u64(w[1].as_str()) {
                Some(v) => v,
                None => 0,
            };
            let rx_packets = match parse_u64(w[2].as_str()) {
                Some(v) => v,
                None => 0,
            };
            let tx_bytes = match parse_u64(w[9].as_str()) {
                Some(v) => v,
                None => 0,
            };
            let tx_packets = match parse_u64(w[10].as_str()) {
                Some(v) => v,
                None => 0,
            };
            io.bytes_received = io.bytes_received + rx_bytes;
            io.packets_received = io.packets_received + rx_packets;
            io.bytes_sent = io.bytes_sent + tx_bytes;
            io.packets_sent = io.packets_sent + tx_packets;
        } else {
            assert(w@.len() >= 10 ==> w@[0]@ == strings_view(w@)[0]);
        }
        i = i + 1;
    }
    assert(rows.take(i - 2) =~= rows);
    io
}

/// The name of a process from its command line: the first word after the
/// last `/`, or of the whole line when it has none, or `unknown` when there
/// is no such word.
pub open spec fn process_name_of(command: Seq<char>) -> Seq<char> {
    let rest = match command.index_of_last('/') {
        Some(i) => command.skip(i + 1),
        None => command,
    };
    let w = words(rest);
    if w.len() > 0 {
        w[0]
    } else {
        "unknown"@
    }
}

/// The name of a process from its command line.
pub fn extract_process_name(command: &str) -> (r: String)
    ensures
        r@ == process_name_of(command@),
{
    let n = command.unicode_len();
    let rest = match rfind_char(command, '/') {
        Some(i) => command.substring_char(i + 1, n),
        None => command,
    };
    proof {
        match command@.index_of_last('/') {
            Some(i) => assert(rest@ =~= command@.skip(i + 1)),
            None => {},
        }
    }
    let w = split_words(rest);
    if w.len() > 0 {
        assert(w@[0]@ == strings_view(w@)[0]);
        w[0].clone()
    } else {
        String::from_str("unknown")
    }
}

/// The workspace of a process from its id: the part before the first `-`,
/// or `default`.
pub open spec fn process_workspace_of(process_id: Seq<char>) -> Seq<char> {
    match process_id.index_of_first('-') {
        Some(p) => process_id.take(p),
        None => "default"@,
    }
}

/// The workspace of a process from its id.
pub fn get_process_workspace(process_id: &str) -> (r: String)
    ensures
        r@ == process_workspace_of(process_id@),
{
    match find_char(process_id, '-') {
        Some(p) => {
            let head = process_id.substring_char(0, p);
            assert(head@ =~= process_id@.take(p as int));
            String::from_str(head)
        },
        None => String::from_str("default"),
    }
}

/// What a line of `ps aux` tells of a process: its id, name and command
/// line, and the CPU and memory percentage fields as written.
pub struct PsEntry {
    pub pid: u32,
    pub name: String,
    pub command: String,
    pub cpu_field: String,
    pub mem_field: String,
}

/// The command line of a `ps aux` line: its words from the eleventh on,
/// joined by single spaces.
pub open spec fn ps_command(w: Seq<Seq<char>>) -> Seq<char> {
    join(w.skip(10), " "@)
}

/// A line of `ps aux` with at least eleven words whose second word is a
/// process id: the id, name, command line, and CPU and memory fields.
pub open spec fn ps_entry_of(line: Seq<char>) -> Option<(u32, Seq<char>, Seq<char>, Seq<char>, Seq<char>)> {
    let w = words(line);
    if w.len() >= 11 {
        match parse_u32_spec(w[1]) {
            Some(pid) => Some((pid, process_name_of(ps_command(w)), ps_command(w), w[2], w[3])),
            None => None,
        }
    } else {
        None
    }
}

/// Reads a line of `ps aux`; `None` when it has fewer than eleven words or
/// no process id.
pub fn parse_ps_line(line: &str) -> (r: Option<PsEntry>)
    ensures
        match r {
            Some(e) => ps_entry_of(line@) == Some(
                (e.pid, e.name@, e.command@, e.cpu_field@, e.mem_field@),
            ),
            None => ps_entry_of(line@) is None,
        },
{
    let w = split_words(line);
    let ghost wv = strings_view(w@);
    if w.len() < 11 {
        return None;
    }
    assert(w@[1]@ == wv[1]);
    let pid = match parse_u32(w[1].as_str()) {
        Some(p) => p,
        None => return None,
    };
    let mut tail: Vec<String> = Vec::new();
    let mut i: usize = 10;
    while i < w.len()
        invariant
            wv == strings_view(w@),
            wv.len() == w@.len(),
            10 <= i <= w@.len(),
            tail@.len() == i - 10,
            forall|j: int| 0 <= j < tail@.len() ==> (#[trigger] tail@[j])@ == wv[10 + j],
        decreases w.len() - i,
    {
        let x = w[i].clone();
        assert(x@ == wv[i as int]);
        tail.push(x);
        i = i + 1;
    }
    assert(strings_view(tail@) =~= wv.skip(10)) by {
        assert forall|j: int| 0 <= j < tail@.len() implies #[trigger] strings_view(tail@)[j] == wv.skip(
            10,
        )[j] by {
            assert(strings_view(tail@)[j] == tail@[j]@);
        }
    }
    let command = join_strings(&tail, " ");
    let name = extract_process_name(command.as_str());
    assert(w@[2]@ == wv[2]);
    assert(w@[3]@ == wv[3]);
    Some(PsEntry { pid, name, command, cpu_field: w[2].clone(), mem_field: w[3].clone() })
}

/// What the first line of `/proc/stat` tells of the CPU.
#[derive(Debug, Clone, Copy, PartialEq, Eq, Structural)]
pub enum CpuTimes {
    /// The first line is not the `cpu` line with seven counters.
    Missing,
    /// One of the seven counters is not a number.
    Malformed,
    /// The sum of the user, nice, system, idle, iowait, irq and softirq
    /// counters, and the idle counter.
    Counted { total: u64, idle: u64 },
}

/// The seven counters of the `cpu` line, parsed.
pub open spec fn cpu_counters(w: Seq<Seq<char>>) -> Seq<Option<u64>> {
    Seq::new(7, |k: int| parse_u64_spec(w[k + 1]))
}

/// The sum of the first `k` parsed counters.
pub open spec fn counter_sum(c: Seq<Option<u64>>, k: nat) -> nat
    decreases k,
{
    if k == 0 {
        0
    } else {
        counter_sum(c, (k - 1) as nat) + match c[k - 1] {
            Some(v) => v as nat,
            None => 0,
        }
    }
}

/// The first line of `/proc/stat`, read as CPU times.
pub open spec fn cpu_times_of(stat: Seq<char>) -> CpuTimes {
    let ls = lines(stat);
    if ls.len() == 0 {
        CpuTimes::Missing
    } else {
        let w = words(ls[0]);
        if w.len() >= 8 && w[0] == "cpu"@ {
            let c = cpu_counters(w);
            if forall|k: int| 0 <= k < 7 ==> (#[trigger] c[k]) is Some {
                CpuTimes::Counted { total: counter_sum(c, 7) as u64, idle: c[3]->Some_0 }
            } else {
                CpuTimes::Malformed
            }
        } else {
            CpuTimes::Missing
        }
    }
}

/// Reads the CPU times from the text of `/proc/stat`.
pub fn cpu_times(stat: &str) -> (r: CpuTimes)
    requires
        ({
            let ls = lines(stat@);
            ls.len() > 0 && words(ls[0]).len() >= 8 ==> counter_sum(cpu_counters(words(ls[0])), 7)
                <= u64::MAX
        }),
    ensures
        r == cpu_times_of(stat@),
{
    let ls = split_lines(stat);
    if ls.len() == 0 {
        return CpuTimes::Missing;
    }
    assert(ls@[0]@ == strings_view(ls@)[0]);
    let w = split_words(ls[0].as_str());
    let ghost wv = strings_view(w@);
    if w.len() < 8 {
        return CpuTimes::Missing;
    }
    assert(w@[0]@ == wv[0]);
    if !eq_str(&w[0], "cpu") {
        return CpuTimes::Missing;
    }
    let ghost c = cpu_counters(wv);
    assert(wv == words(lines(stat@)[0]));
    let mut total: u64 = 0;
    let mut idle: u64 = 0;
    let mut k: usize = 0;
    while k < 7
        invariant
            wv == strings_view(w@),
            ls@.len() > 0,
            strings_view(ls@) == lines(stat@),
            wv == words(lines(stat@)[0]),
            wv[0] == "cpu"@,
            w@.len() >= 8,
            c == cpu_counters(wv),
            counter_sum(c, 7) <= u64::MAX,
            0 <= k <= 7,
            forall|j: int| 0 <= j < k ==> (#[trigger] c[j]) is Some,
            total == counter_sum(c, k as nat),
            k > 3 ==> c[3] == Some(idle),
        decreases 7 - k,
    {
        assert(w@[k + 1]@ == wv[k + 1]);
        assert(c[k as int] == parse_u64_spec(wv[k + 1]));
        match parse_u64(w[k + 1].as_str()) {
            Some(v) => {
                proof {
                    lemma_counter_sum_grows(c, (k + 1) as nat, 7);
                }
                total = total + v;
                if k == 3 {
                    idle = v;
                }
            },
            None => {
                assert(!(c[k as int] is Some));
                return CpuTimes::Malformed;
            },
        }
        k = k + 1;
    }
    CpuTimes::Counted { total, idle }
}

proof fn lemma_counter_sum_grows(c: Seq<Option<u64>>, a: nat, b: nat)
    requires
        a <= b,
    ensures
        counter_sum(c, a) <= counter_sum(c, b),
    decreases b,
{
    if a < b {
        lemma_counter_sum_grows(c, a, (b - 1) as nat);
    }
}

} // verus!
