//! CPU information and topology: logical and physical core counts, NUMA
//! nodes, and which core a worker should run on.
//!
//! NUMA nodes are read from the sysfs listing of `/sys/devices/system/node`:
//! entries named `node<N>` with a `cpulist` file such as `0-2,4,6-8`. The
//! listing itself is read by the caller and handed in as names and file
//! contents.

use crate::text::{
    all_digits, bool_text, chars_of, decimal_text, is_digit, lemma_decimal_text,
    lemma_digits_lack, lemma_parse_decimal_text, lemma_split_pair, lemma_split_single,
    lemma_trim_digits, parse_usize, parse_usize_chars, push_bool, push_decimal, split_chars,
    split_on, sub_chars, trim, trimmed,
};
use vstd::prelude::*;

verus! {

/// A NUMA node: its id and the logical cores it holds.
#[derive(Debug, PartialEq, Eq)]
pub struct NumaNode {
    /// NUMA node id.
    pub id: usize,
    /// Logical CPU cores in this node.
    pub cores: Vec<usize>,
}

impl View for NumaNode {
    type V = (usize, Seq<usize>);

    open spec fn view(&self) -> (usize, Seq<usize>) {
        (self.id, self.cores@)
    }
}

impl Clone for NumaNode {
    fn clone(&self) -> (r: Self)
        ensures
            r@ == self@,
    {
        let cores = self.cores.clone();
        assert(cores@ =~= self.cores@);
        NumaNode { id: self.id, cores }
    }
}

impl NumaNode {
    /// Creates a NUMA node with the given id and cores.
    pub fn new(id: usize, cores: Vec<usize>) -> (n: NumaNode)
        ensures
            n@ == (id, cores@),
    {
        NumaNode { id, cores }
    }

    /// Number of cores in this node.
    pub fn core_count(&self) -> (n: usize)
        ensures
            n == self.cores@.len(),
    {
        self.cores.len()
    }
}

/// The ids and cores of a sequence of nodes.
pub open spec fn nodes_view(nodes: Seq<NumaNode>) -> Seq<(usize, Seq<usize>)> {
    nodes.map_values(|n: NumaNode| n@)
}

/// What a `CpuInfo` holds.
pub struct CpuInfoView {
    /// Total number of logical cores.
    pub logical_cores: usize,
    /// Number of physical cores, when known.
    pub physical_cores: Option<usize>,
    /// The NUMA nodes: ids and cores.
    pub numa_nodes: Seq<(usize, Seq<usize>)>,
    /// Whether the NUMA topology was detected and can be used.
    pub numa_available: bool,
}

/// CPU topology: logical and physical cores and NUMA nodes.
pub struct CpuInfo {
    logical_cores: usize,
    physical_cores: Option<usize>,
    numa_nodes: Vec<NumaNode>,
    numa_available: bool,
}

impl View for CpuInfo {
    type V = CpuInfoView;

    closed spec fn view(&self) -> CpuInfoView {
        CpuInfoView {
            logical_cores: self.logical_cores,
            physical_cores: self.physical_cores,
            numa_nodes: nodes_view(self.numa_nodes@),
            numa_available: self.numa_available,
        }
    }
}

impl Clone for CpuInfo {
    fn clone(&self) -> (r: Self)
        ensures
            r@ == self@,
    {
        let nodes = self.numa_nodes.clone();
        let r = CpuInfo {
            logical_cores: self.logical_cores,
            physical_cores: self.physical_cores,
            numa_nodes: nodes,
            numa_available: self.numa_available,
        };
        assert(r@.numa_nodes =~= self@.numa_nodes);
        r
    }
}

/// The cores of `nodes`, node after node.
pub open spec fn all_cores(nodes: Seq<(usize, Seq<usize>)>) -> Seq<usize>
    decreases nodes.len(),
{
    if nodes.len() == 0 {
        Seq::empty()
    } else {
        all_cores(nodes.drop_last()) + nodes.last().1
    }
}

/// The cores of the first nodes come first among the cores of all nodes.
pub proof fn lemma_all_cores_prefix(nodes: Seq<(usize, Seq<usize>)>, k: int)
    requires
        0 <= k <= nodes.len(),
    ensures
        all_cores(nodes.take(k)).len() <= all_cores(nodes).len(),
        forall|i: int|
            0 <= i < all_cores(nodes.take(k)).len() ==> #[trigger] all_cores(nodes.take(k))[i]
                == all_cores(nodes)[i],
    decreases nodes.len(),
{
    if k == nodes.len() {
        assert(nodes.take(k) =~= nodes);
    } else {
        lemma_all_cores_prefix(nodes.drop_last(), k);
        assert(nodes.drop_last().take(k) =~= nodes.take(k));
    }
}

/// The core a worker runs on: with NUMA, the worker's position among the
/// cores of all nodes, node after node, while there are enough of them;
/// otherwise the worker index modulo the number of logical cores.
pub open spec fn spec_core_for_worker(info: CpuInfoView, worker_idx: usize) -> usize {
    let cores = all_cores(info.numa_nodes);
    if info.numa_available && info.numa_nodes.len() > 0 && worker_idx < cores.len() {
        cores[worker_idx as int]
    } else {
        (worker_idx % info.logical_cores) as usize
    }
}

/// `get_core_for_worker` has a result: the cores of all nodes can be
/// counted in a `usize`, and the modulo, where it is taken, is by a
/// non-zero count.
pub open spec fn core_for_worker_defined(info: CpuInfoView, worker_idx: usize) -> bool {
    let cores = all_cores(info.numa_nodes);
    &&& cores.len() <= usize::MAX
    &&& (info.logical_cores > 0 || (info.numa_available && info.numa_nodes.len() > 0 && worker_idx
        < cores.len()))
}

/// The cores `0..n`.
pub open spec fn core_range(n: usize) -> Seq<usize> {
    Seq::new(n as nat, |i: int| i as usize)
}

/// The cores `start..=end`, none when `start > end`.
pub open spec fn inclusive_range(start: usize, end: usize) -> Seq<usize> {
    Seq::new(
        if start <= end {
            (end - start + 1) as nat
        } else {
            0
        },
        |i: int| (start + i) as usize,
    )
}

/// The cores one comma-separated part of a CPU list names: a range `a-b`
/// (both ends trimmed and parsed), or a single core; nothing when the part
/// does not parse.
pub open spec fn cores_in_part(part: Seq<char>) -> Seq<usize> {
    if part.contains('-') {
        let range = split_on(part, '-');
        if range.len() == 2 {
            match (parse_usize(trim(range[0])), parse_usize(trim(range[1]))) {
                (Some(start), Some(end)) => inclusive_range(start, end),
                _ => Seq::empty(),
            }
        } else {
            Seq::empty()
        }
    } else {
        match parse_usize(trim(part)) {
            Some(core) => seq![core],
            None => Seq::empty(),
        }
    }
}

/// The cores of the parts, part after part.
pub open spec fn cores_in_parts(parts: Seq<Seq<char>>) -> Seq<usize>
    decreases parts.len(),
{
    if parts.len() == 0 {
        Seq::empty()
    } else {
        cores_in_parts(parts.drop_last()) + cores_in_part(parts.last())
    }
}

/// The cores a CPU list such as `0-2,4,6-8` names, in the order it names
/// them.
pub open spec fn spec_parse_cpu_list(cpulist: Seq<char>) -> Seq<usize> {
    cores_in_parts(split_on(cpulist, ','))
}

/// The characters `node`.
pub open spec fn node_prefix() -> Seq<char> {
    seq!['n', 'o', 'd', 'e']
}

/// `s` with every leading repetition of `node` removed, as
/// `str::trim_start_matches("node")` gives it.
pub open spec fn strip_node_prefixes(s: Seq<char>) -> Seq<char>
    decreases s.len(),
{
    if s.len() >= 4 && s.take(4) == node_prefix() {
        strip_node_prefixes(s.skip(4))
    } else {
        s
    }
}

/// The node that a sysfs entry stands for: its name starts with `node`, the
/// rest parses as the node id, and it has a `cpulist` file.
pub open spec fn node_from_entry(name: Seq<char>, cpulist: Option<Seq<char>>) -> Option<
    (usize, Seq<usize>),
> {
    if name.len() >= 4 && name.take(4) == node_prefix() {
        match (parse_usize(strip_node_prefixes(name)), cpulist) {
            (Some(id), Some(list)) => Some((id, spec_parse_cpu_list(list))),
            _ => None,
        }
    } else {
        None
    }
}

/// The nodes that a sysfs listing describes, in listing order.
pub open spec fn nodes_from_listing(entries: Seq<(Seq<char>, Option<Seq<char>>)>) -> Seq<
    (usize, Seq<usize>),
>
    decreases entries.len(),
{
    if entries.len() == 0 {
        Seq::empty()
    } else {
        let before = nodes_from_listing(entries.drop_last());
        match node_from_entry(entries.last().0, entries.last().1) {
            Some(node) => before.push(node),
            None => before,
        }
    }
}

/// A sysfs listing as names and file contents.
pub open spec fn listing_view(entries: Seq<(String, Option<String>)>) -> Seq<
    (Seq<char>, Option<Seq<char>>),
> {
    entries.map_values(|e: (String, Option<String>)| (e.0@, opt_text(e.1)))
}

/// The characters of a file's contents, when the file exists.
pub open spec fn opt_text(s: Option<String>) -> Option<Seq<char>> {
    match s {
        Some(t) => Some(t@),
        None => None,
    }
}

/// The NUMA nodes detected from a listing that could be read, none from
/// one that could not.
pub open spec fn spec_numa_linux(listing: Option<Seq<(String, Option<String>)>>) -> Seq<
    (usize, Seq<usize>),
> {
    match listing {
        Some(entries) => nodes_from_listing(listing_view(entries)),
        None => Seq::empty(),
    }
}

/// The NUMA nodes and their availability: the detected nodes when there are
/// any, otherwise a single node 0 holding all logical cores, marked as not
/// available.
pub open spec fn spec_numa_nodes(
    logical_cores: usize,
    listing: Option<Seq<(String, Option<String>)>>,
) -> (Seq<(usize, Seq<usize>)>, bool) {
    let detected = spec_numa_linux(listing);
    if detected.len() > 0 {
        (detected, true)
    } else {
        (seq![(0usize, core_range(logical_cores))], false)
    }
}

/// Number of cores of node `k` when `l` cores are spread over `m` nodes: each
/// node gets `l / m`, and the first `l % m` nodes one more.
pub open spec fn mock_node_size(l: usize, m: usize, k: int) -> int {
    l / m + if k < l % m {
        1int
    } else {
        0int
    }
}

/// First core of node `k` when `l` cores are spread over `m` nodes in order.
pub open spec fn mock_node_start(l: usize, m: usize, k: int) -> int {
    k * (l / m) + if k < l % m {
        k
    } else {
        (l % m) as int
    }
}

/// The nodes of a mock topology: `m` nodes numbered from 0 that share the
/// `l` cores in order, or, for `m == 0`, one node 0 with every core.
pub open spec fn mock_nodes(l: usize, m: usize) -> Seq<(usize, Seq<usize>)> {
    if m == 0 {
        seq![(0usize, core_range(l))]
    } else {
        Seq::new(
            m as nat,
            |k: int|
                (
                    k as usize,
                    Seq::new(
                        mock_node_size(l, m, k) as nat,
                        |i: int| (mock_node_start(l, m, k) + i) as usize,
                    ),
                ),
        )
    }
}

/// The topology `CpuInfo::mock(l, m)` describes: `l` logical cores, `l / 2`
/// physical ones, and the mock nodes, usable when there is at least one.
pub open spec fn mock_view(l: usize, m: usize) -> CpuInfoView {
    CpuInfoView {
        logical_cores: l,
        physical_cores: Some((l / 2) as usize),
        numa_nodes: mock_nodes(l, m),
        numa_available: m > 0,
    }
}

/// Each mock node starts where the one before it ends.
proof fn lemma_mock_start_step(l: usize, m: usize, k: int)
    requires
        m > 0,
        0 <= k,
    ensures
        mock_node_start(l, m, k + 1) == mock_node_start(l, m, k) + mock_node_size(l, m, k),
{
    let q = (l / m) as int;
    assert((k + 1) * q == k * q + q) by (nonlinear_arith);
}

/// The mock nodes stay within the `l` cores and the last one ends at `l`.
proof fn lemma_mock_start_bound(l: usize, m: usize, k: int)
    requires
        m > 0,
        0 <= k <= m,
    ensures
        0 <= mock_node_start(l, m, k) <= l,
        mock_node_start(l, m, m as int) == l,
{
    let q = (l / m) as int;
    let r = (l % m) as int;
    vstd::arithmetic::div_mod::lemma_fundamental_div_mod(l as int, m as int);
    assert(0 <= k * q <= m * q) by (nonlinear_arith)
        requires
            0 <= k <= m,
            0 <= q,
    ;
    assert(m * q == (m as int) * q);
    assert(l == m * q + r);
    assert(r < m);
}

/// The cores of the first `k` mock nodes, node after node, are
/// `0..start(k)`.
proof fn lemma_mock_cores_prefix(l: usize, m: usize, k: int)
    requires
        m > 0,
        0 <= k <= m,
    ensures
        all_cores(mock_nodes(l, m).take(k)) =~= Seq::new(
            mock_node_start(l, m, k) as nat,
            |i: int| i as usize,
        ),
    decreases k,
{
    let nodes = mock_nodes(l, m);
    lemma_mock_start_bound(l, m, k);
    if k == 0 {
        assert(0 * (l / m) == 0) by (nonlinear_arith);
        assert(mock_node_start(l, m, 0) == 0);
        assert(nodes.take(0) =~= Seq::empty());
        assert(all_cores(nodes.take(0)) =~= Seq::empty());
    } else {
        lemma_mock_cores_prefix(l, m, k - 1);
        lemma_mock_start_step(l, m, k - 1);
        lemma_mock_start_bound(l, m, k - 1);
        let before = mock_node_start(l, m, k - 1);
        let node_cores = Seq::new(
            mock_node_size(l, m, k - 1) as nat,
            |i: int| (before + i) as usize,
        );
        let prefix = all_cores(nodes.take(k - 1));
        assert(nodes.take(k).drop_last() =~= nodes.take(k - 1));
        assert(nodes.take(k).last() == nodes[k - 1]);
        assert(nodes[k - 1].1 =~= node_cores);
        assert(all_cores(nodes.take(k)) == prefix + node_cores);
        assert(prefix.len() == before);
        let target = Seq::new(mock_node_start(l, m, k) as nat, |i: int| i as usize);
        assert forall|i: int| 0 <= i < target.len() implies #[trigger] (prefix + node_cores)[i]
            == target[i] by {
            if i < before {
                assert(prefix[i] == i as usize);
            } else {
                assert(node_cores[i - before] == (before + (i - before)) as usize);
            }
        }
        assert(prefix + node_cores =~= target);
    }
}

/// On a mock topology of at least one core, worker `w` runs on core
/// `w % l`: workers fill the cores in order, node after node, and wrap
/// around when there are more workers than cores.
pub proof fn lemma_mock_round_robin(l: usize, m: usize, w: usize)
    requires
        l > 0,
    ensures
        core_for_worker_defined(mock_view(l, m), w),
        spec_core_for_worker(mock_view(l, m), w) == w % l,
{
    let nodes = mock_nodes(l, m);
    if m == 0 {
        assert(nodes.drop_last() =~= Seq::empty());
        assert(all_cores(nodes.drop_last()) =~= Seq::empty());
        assert(nodes.last().1 == core_range(l));
        assert(all_cores(nodes) =~= core_range(l));
    } else {
        lemma_mock_cores_prefix(l, m, m as int);
        lemma_mock_start_bound(l, m, m as int);
        assert(nodes.take(m as int) =~= nodes);
        assert(all_cores(nodes) =~= core_range(l));
        if w < l {
            vstd::arithmetic::div_mod::lemma_small_mod(w as nat, l as nat);
        }
    }
}

/// A part `a-b` of a CPU list, with `a <= b` written in decimal, names every
/// core from `a` to `b` in order: `b - a + 1` consecutive cores starting at
/// `a`, however long the range.
pub proof fn lemma_parse_range(a: usize, b: usize)
    requires
        a <= b,
    ensures
        ({
            let cores = spec_parse_cpu_list(
                decimal_text(a as nat) + seq!['-'] + decimal_text(b as nat),
            );
            &&& cores.len() == b - a + 1
            &&& forall|i: int| 0 <= i < cores.len() ==> cores[i] == a + i
        }),
{
    let da = decimal_text(a as nat);
    let db = decimal_text(b as nat);
    let text = da + seq!['-'] + db;
    lemma_decimal_text(a as nat);
    lemma_decimal_text(b as nat);
    lemma_parse_decimal_text(a);
    lemma_parse_decimal_text(b);
    lemma_trim_digits(da);
    lemma_trim_digits(db);
    lemma_digits_lack(da, '-');
    lemma_digits_lack(db, '-');
    assert(!text.contains(',')) by {
        if text.contains(',') {
            let i = choose|i: int| 0 <= i < text.len() && text[i] == ',';
            if i < da.len() {
                assert(text[i] == da[i]);
                assert(is_digit(da[i]));
            } else if i > da.len() {
                assert(text[i] == db[i - da.len() - 1]);
                assert(is_digit(db[i - da.len() - 1]));
            }
        }
    }
    lemma_split_single(text, ',');
    assert(seq![text].drop_last() =~= Seq::<Seq<char>>::empty());
    assert(text[da.len() as int] == '-');
    assert(text.contains('-'));
    lemma_split_pair(da, db, '-');
    assert(cores_in_part(text) == inclusive_range(a, b));
    assert(spec_parse_cpu_list(text) =~= cores_in_parts(Seq::<Seq<char>>::empty()) + cores_in_part(
        text,
    ));
}

/// A part naming one core, written in decimal, names exactly that core.
pub proof fn lemma_parse_single(a: usize)
    ensures
        spec_parse_cpu_list(decimal_text(a as nat)) == seq![a],
{
    let da = decimal_text(a as nat);
    lemma_decimal_text(a as nat);
    lemma_parse_decimal_text(a);
    lemma_trim_digits(da);
    lemma_digits_lack(da, '-');
    lemma_digits_lack(da, ',');
    lemma_split_single(da, ',');
    assert(seq![da].drop_last() =~= Seq::<Seq<char>>::empty());
    assert(cores_in_part(da) == seq![a]);
    assert(spec_parse_cpu_list(da) == cores_in_parts(Seq::<Seq<char>>::empty()) + cores_in_part(
        da,
    ));
    assert(spec_parse_cpu_list(da) =~= seq![a]);
}

/// Whenever the sysfs listing names at least one node, a single node
/// included, the topology is NUMA-available and its nodes are exactly the
/// nodes the listing names; only a listing that names none falls back to
/// one node 0 holding every core, marked as not available.
pub proof fn lemma_listed_nodes_are_numa(
    logical_cores: usize,
    listing: Option<Seq<(String, Option<String>)>>,
)
    ensures
        spec_numa_linux(listing).len() > 0 ==> spec_numa_nodes(logical_cores, listing) == (
            spec_numa_linux(listing),
            true,
        ),
        spec_numa_linux(listing).len() == 0 ==> spec_numa_nodes(logical_cores, listing) == (
            seq![(0usize, core_range(logical_cores))],
            false,
        ),
{
}

/// A listing with the single entry `node<k>`, whose `cpulist` is `list`,
/// describes a NUMA-available topology of exactly one node: node `k` with the
/// cores `list` names.
pub proof fn lemma_one_node_listing(
    logical_cores: usize,
    entries: Seq<(String, Option<String>)>,
    k: usize,
    list: String,
)
    requires
        entries.len() == 1,
        entries[0].0@ == seq!['n', 'o', 'd', 'e'] + decimal_text(k as nat),
        entries[0].1 == Some(list),
    ensures
        spec_numa_nodes(logical_cores, Some(entries)) == (
            seq![(k, spec_parse_cpu_list(list@))],
            true,
        ),
{
    let name = entries[0].0@;
    let digits = decimal_text(k as nat);
    lemma_decimal_text(k as nat);
    lemma_parse_decimal_text(k);
    assert(name.take(4) =~= node_prefix());
    assert(name.skip(4) =~= digits);
    assert(is_digit(digits[0]));
    assert(digits.len() < 4 || digits.take(4) != node_prefix()) by {
        if digits.len() >= 4 && digits.take(4) == node_prefix() {
            assert(digits.take(4)[0] == digits[0]);
        }
    }
    assert(strip_node_prefixes(digits) == digits);
    assert(strip_node_prefixes(name) == digits);
    let lv = listing_view(entries);
    assert(lv[0] == (name, Some(list@)));
    assert(lv.drop_last() =~= Seq::<(Seq<char>, Option<Seq<char>>)>::empty());
    assert(node_from_entry(name, Some(list@)) == Some((k, spec_parse_cpu_list(list@))));
    assert(lv.len() == 1);
    assert(lv.last() == lv[0]);
    assert(nodes_from_listing(lv.drop_last()) =~= Seq::<(usize, Seq<usize>)>::empty());
    assert(nodes_from_listing(lv) == nodes_from_listing(lv.drop_last()).push(
        (k, spec_parse_cpu_list(list@)),
    ));
    assert(spec_numa_linux(Some(entries)) =~= seq![(k, spec_parse_cpu_list(list@))]);
}

/// Whether `v` holds `c`.
fn contains_char(v: &Vec<char>, c: char) -> (b: bool)
    ensures
        b == v@.contains(c),
{
    let mut i: usize = 0;
    while i < v.len()
        invariant
            0 <= i <= v@.len(),
            forall|k: int| 0 <= k < i ==> v@[k] != c,
        decreases v@.len() - i,
    {
        if v[i] == c {
            assert(v@[i as int] == c);
            return true;
        }
        i = i + 1;
    }
    false
}

/// Appends the cores `start..=end` to `cores`.
fn push_range(cores: &mut Vec<usize>, start: usize, end: usize)
    ensures
        final(cores)@ == old(cores)@ + inclusive_range(start, end),
{
    let ghost target = inclusive_range(start, end);
    if start > end {
        assert(old(cores)@ + target =~= old(cores)@);
        return ;
    }
    let ghost base = cores@;
    let mut c = start;
    assert(base + target.take(0) =~= base);
    loop
        invariant
            start <= c <= end,
            base == old(cores)@,
            target == inclusive_range(start, end),
            target.len() == end - start + 1,
            cores@ == base + target.take(c - start),
        decreases end - c,
    {
        assert(target[c - start] == c);
        cores.push(c);
        assert(cores@ =~= base + target.take(c - start + 1));
        if c == end {
            assert(target.take(c - start + 1) =~= target);
            return ;
        }
        c = c + 1;
    }
}


/// The cores `0..n`, in order.
fn core_range_vec(n: usize) -> (v: Vec<usize>)
    ensures
        v@ == core_range(n),
{
    let mut v: Vec<usize> = Vec::new();
    let mut c: usize = 0;
    while c < n
        invariant
            c <= n,
            v@ == core_range(c),
        decreases n - c,
    {
        v.push(c);
        c = c + 1;
        assert(v@ =~= core_range(c));
    }
    v
}

/// Whether `node` stands in `s` at position `k`.
fn node_prefix_at(s: &Vec<char>, k: usize) -> (b: bool)
    requires
        k <= s@.len(),
    ensures
        b == (s@.len() - k >= 4 && s@.skip(k as int).take(4) == node_prefix()),
{
    if s.len() - k < 4 {
        return false;
    }
    let b = s[k] == 'n' && s[k + 1] == 'o' && s[k + 2] == 'd' && s[k + 3] == 'e';
    proof {
        let t = s@.skip(k as int).take(4);
        assert(t[0] == s@[k as int] && t[1] == s@[k + 1] && t[2] == s@[k + 2] && t[3]
            == s@[k + 3]);
        if b {
            assert(t =~= node_prefix());
        } else if t == node_prefix() {
            assert(t[0] == 'n' && t[1] == 'o' && t[2] == 'd' && t[3] == 'e');
        }
    }
    b
}

/// `s` with every leading `node` removed.
fn strip_node_prefixes_chars(s: &Vec<char>) -> (out: Vec<char>)
    ensures
        out@ == strip_node_prefixes(s@),
{
    let mut k: usize = 0;
    assert(s@.skip(0) =~= s@);
    let n = s.len();
    let mut more = node_prefix_at(s, 0);
    while more
        invariant
            n == s@.len(),
            k <= s@.len(),
            strip_node_prefixes(s@.skip(k as int)) == strip_node_prefixes(s@),
            more == (s@.len() - k >= 4 && s@.skip(k as int).take(4) == node_prefix()),
        decreases s@.len() - k,
    {
        assert(s@.skip(k as int).skip(4) =~= s@.skip(k + 4));
        k = k + 4;
        more = node_prefix_at(s, k);
    }
    let out = sub_chars(s, k, s.len());
    assert(out@ =~= s@.skip(k as int));
    out
}

/// The node a sysfs entry stands for, if it stands for one.
fn node_from_entry_exec(name: &String, cpulist: &Option<String>) -> (node: Option<NumaNode>)
    ensures
        node is Some <==> node_from_entry(name@, opt_text(*cpulist)) is Some,
        node is Some ==> node_from_entry(name@, opt_text(*cpulist)) == Some(node->0@),
{
    let chars = chars_of(name.as_str());
    if !node_prefix_at(&chars, 0) {
        assert(chars@.skip(0) =~= chars@);
        return None;
    }
    assert(chars@.skip(0) =~= chars@);
    let stripped = strip_node_prefixes_chars(&chars);
    match parse_usize_chars(&stripped) {
        Some(id) => match cpulist {
            Some(list) => Some(NumaNode::new(id, CpuInfo::parse_cpu_list(list.as_str()))),
            None => None,
        },
        None => None,
    }
}

/// `num_cpus::get`: the number of logical CPUs available to the process,
/// which the crate documents as always at least 1.
#[verifier::external_body]
fn logical_cpu_count() -> (n: usize)
    ensures
        n >= 1,
{
    num_cpus::get()
}

/// `num_cpus::get_physical`: the number of physical cores, which the crate
/// documents as always at least 1.
#[verifier::external_body]
fn physical_cpu_count() -> (n: usize)
    ensures
        n >= 1,
{
    num_cpus::get_physical()
}

impl CpuInfo {
    /// Builds the topology from the counts the system reports and its NUMA
    /// listing: a physical count of zero stands for an unknown one.
    pub fn from_system(
        logical_cores: usize,
        physical_count: usize,
        listing: Option<Vec<(String, Option<String>)>>,
    ) -> (info: CpuInfo)
        ensures
            info@.logical_cores == logical_cores,
            info@.physical_cores == if physical_count > 0 {
                Some(physical_count)
            } else {
                None::<usize>
            },
            (info@.numa_nodes, info@.numa_available) == spec_numa_nodes(
                logical_cores,
                match listing {
                    Some(v) => Some(v@),
                    None => None,
                },
            ),
    {
        let physical_cores = if physical_count > 0 {
            Some(physical_count)
        } else {
            None
        };
        let (numa_nodes, numa_available) = Self::detect_numa_nodes(logical_cores, &listing);
        CpuInfo { logical_cores, physical_cores, numa_nodes, numa_available }
    }

    /// Gets the total number of logical CPU cores.
    pub fn logical_cores(&self) -> (n: usize)
        ensures
            n == self@.logical_cores,
    {
        self.logical_cores
    }

    /// Gets the number of physical CPU cores, if known.
    pub fn physical_cores(&self) -> (n: Option<usize>)
        ensures
            n == self@.physical_cores,
    {
        self.physical_cores
    }

    /// Gets the NUMA nodes.
    pub fn numa_nodes(&self) -> (nodes: &[NumaNode])
        ensures
            nodes_view(nodes@) == self@.numa_nodes,
    {
        self.numa_nodes.as_slice()
    }

    /// Checks whether the NUMA topology is available.
    pub fn is_numa_available(&self) -> (b: bool)
        ensures
            b == self@.numa_available,
    {
        self.numa_available
    }

    /// Gets the core a worker should run on. Without NUMA, workers are
    /// spread over all cores round-robin; with NUMA, worker `i` gets the
    /// `i`-th core counting node after node, and workers beyond the cores of
    /// all nodes fall back to round-robin.
    pub fn get_core_for_worker(&self, worker_idx: usize) -> (core: usize)
        requires
            core_for_worker_defined(self@, worker_idx),
        ensures
            core == spec_core_for_worker(self@, worker_idx),
    {
        let ghost nodes = self@.numa_nodes;
        if !self.numa_available || self.numa_nodes.len() == 0 {
            return worker_idx % self.logical_cores;
        }
        let mut total_cores: usize = 0;
        let mut k: usize = 0;
        while k < self.numa_nodes.len()
            invariant
                0 <= k <= self.numa_nodes@.len(),
                nodes == self@.numa_nodes,
                nodes.len() == self.numa_nodes@.len(),
                total_cores == all_cores(nodes.take(k as int)).len(),
                worker_idx >= total_cores,
                core_for_worker_defined(self@, worker_idx),
                self.numa_available,
                self.numa_nodes@.len() > 0,
            decreases self.numa_nodes@.len() - k,
        {
            let node = &self.numa_nodes[k];
            proof {
                assert(nodes[k as int] == node@);
                assert(nodes.take(k + 1).drop_last() =~= nodes.take(k as int));
                assert(nodes.take(k + 1).last() == node@);
                lemma_all_cores_prefix(nodes, k + 1);
            }
            total_cores = total_cores + node.core_count();
            if worker_idx < total_cores {
                let local_idx = worker_idx - (total_cores - node.core_count());
                proof {
                    lemma_all_cores_prefix(nodes, k + 1);
                    assert(all_cores(nodes.take(k + 1))[worker_idx as int] == node.cores@[local_idx
                        as int]);
                    assert(all_cores(nodes)[worker_idx as int] == node.cores@[local_idx as int]);
                    vstd::arithmetic::div_mod::lemma_small_mod(
                        local_idx as nat,
                        node.cores@.len(),
                    );
                }
                return node.cores[local_idx % node.core_count()];
            }
            k = k + 1;
        }
        assert(nodes.take(nodes.len() as int) =~= nodes);
        worker_idx % self.logical_cores
    }

    /// Whether `get_core_for_worker` can answer for `worker_idx`: the cores
    /// of all nodes can be counted, and a round-robin answer has cores to
    /// go round.
    pub fn assigns_worker(&self, worker_idx: usize) -> (b: bool)
        ensures
            b == core_for_worker_defined(self@, worker_idx),
    {
        let ghost nodes = self@.numa_nodes;
        let mut total: usize = 0;
        let mut k: usize = 0;
        while k < self.numa_nodes.len()
            invariant
                0 <= k <= self.numa_nodes@.len(),
                nodes == self@.numa_nodes,
                nodes.len() == self.numa_nodes@.len(),
                total == all_cores(nodes.take(k as int)).len(),
            decreases self.numa_nodes@.len() - k,
        {
            let count = self.numa_nodes[k].core_count();
            proof {
                assert(nodes[k as int] == self.numa_nodes@[k as int]@);
                assert(nodes.take(k + 1).drop_last() =~= nodes.take(k as int));
                assert(nodes.take(k + 1).last() == nodes[k as int]);
                lemma_all_cores_prefix(nodes, k + 1);
                lemma_all_cores_prefix(nodes, k as int);
            }
            if count > usize::MAX - total {
                proof {
                    lemma_all_cores_prefix(nodes, k + 1);
                }
                return false;
            }
            total = total + count;
            k = k + 1;
        }
        assert(nodes.take(nodes.len() as int) =~= nodes);
        self.logical_cores > 0 || (self.numa_available && self.numa_nodes.len() > 0 && worker_idx
            < total)
    }

    /// The NUMA nodes a sysfs listing describes; none when the listing
    /// could not be read.
    fn detect_numa_linux(listing: &Option<Vec<(String, Option<String>)>>) -> (nodes: Vec<NumaNode>)
        ensures
            nodes_view(nodes@) == spec_numa_linux(
                match listing {
                    Some(v) => Some(v@),
                    None => None,
                },
            ),
    {
        match listing {
            None => {
                assert(nodes_view(Seq::<NumaNode>::empty()) =~= Seq::empty());
                Vec::new()
            },
            Some(entries) => {
                let ghost lv = listing_view(entries@);
                let mut nodes: Vec<NumaNode> = Vec::new();
                let mut i: usize = 0;
                assert(nodes_view(nodes@) =~= nodes_from_listing(lv.take(0)));
                while i < entries.len()
                    invariant
                        0 <= i <= entries@.len(),
                        lv == listing_view(entries@),
                        lv.len() == entries@.len(),
                        nodes_view(nodes@) == nodes_from_listing(lv.take(i as int)),
                    decreases entries@.len() - i,
                {
                    let entry = &entries[i];
                    let found = node_from_entry_exec(&entry.0, &entry.1);
                    proof {
                        assert(lv.take(i + 1).drop_last() =~= lv.take(i as int));
                        assert(lv.take(i + 1).last() == (entry.0@, opt_text(entry.1)));
                    }
                    match found {
                        Some(n) => {
                            let ghost before = nodes@;
                            nodes.push(n);
                            assert(nodes_view(nodes@) =~= nodes_view(before).push(n@));
                        },
                        None => {},
                    }
                    i = i + 1;
                }
                assert(lv.take(entries@.len() as int) =~= lv);
                nodes
            },
        }
    }

    /// The NUMA nodes and whether they are usable: the detected nodes when
    /// there are any, otherwise one node 0 holding every logical core.
    fn detect_numa_nodes(
        logical_cores: usize,
        listing: &Option<Vec<(String, Option<String>)>>,
    ) -> (r: (Vec<NumaNode>, bool))
        ensures
            (nodes_view(r.0@), r.1) == spec_numa_nodes(
                logical_cores,
                match listing {
                    Some(v) => Some(v@),
                    None => None,
                },
            ),
    {
        let nodes = Self::detect_numa_linux(listing);
        if nodes.len() > 0 {
            return (nodes, true);
        }
        let fallback = NumaNode::new(0, core_range_vec(logical_cores));
        let mut all: Vec<NumaNode> = Vec::new();
        all.push(fallback);
        assert(nodes_view(all@) =~= seq![(0usize, core_range(logical_cores))]);
        (all, false)
    }

    /// Detects the CPU topology: the core counts come from the system, the
    /// NUMA nodes from the sysfs listing handed in (`None` when it could not
    /// be read).
    pub fn detect(listing: Option<Vec<(String, Option<String>)>>) -> (info: CpuInfo)
        ensures
            info@.logical_cores >= 1,
            info@.physical_cores matches Some(p) && p >= 1,
            (info@.numa_nodes, info@.numa_available) == spec_numa_nodes(
                info@.logical_cores,
                match listing {
                    Some(v) => Some(v@),
                    None => None,
                },
            ),
    {
        let logical_cores = logical_cpu_count();
        let physical = physical_cpu_count();
        Self::from_system(logical_cores, physical, listing)
    }

    /// A made-up topology for tests: `logical_cores` cores spread in order
    /// over `numa_nodes_count` nodes (the first nodes take one more core when
    /// they do not divide evenly), or one node 0 with every core, NUMA
    /// unavailable, when the count is 0. Physical cores are half the logical
    /// ones.
    pub fn mock(logical_cores: usize, numa_nodes_count: usize) -> (info: CpuInfo)
        ensures
            info@ == mock_view(logical_cores, numa_nodes_count),
    {
        let ghost l = logical_cores;
        let ghost m = numa_nodes_count;
        let mut numa_nodes: Vec<NumaNode> = Vec::new();
        if numa_nodes_count > 0 {
            let cores_per_node = logical_cores / numa_nodes_count;
            let mut remaining_cores = logical_cores % numa_nodes_count;
            let mut core_idx: usize = 0;
            let mut node_id: usize = 0;
            assert(nodes_view(numa_nodes@) =~= mock_nodes(l, m).take(0));
            while node_id < numa_nodes_count
                invariant
                    l == logical_cores,
                    m == numa_nodes_count,
                    m > 0,
                    node_id <= m,
                    cores_per_node == l / m,
                    remaining_cores == if node_id < l % m {
                        (l % m - node_id) as usize
                    } else {
                        0usize
                    },
                    core_idx == mock_node_start(l, m, node_id as int),
                    nodes_view(numa_nodes@) == mock_nodes(l, m).take(node_id as int),
                decreases m - node_id,
            {
                proof {
                    lemma_mock_start_step(l, m, node_id as int);
                    lemma_mock_start_bound(l, m, node_id + 1);
                }
                let extra_core: usize = if remaining_cores > 0 {
                    1
                } else {
                    0
                };
                remaining_cores = remaining_cores.saturating_sub(1);
                let node_core_count = cores_per_node + extra_core;
                let ghost first = core_idx as int;
                let mut node_cores: Vec<usize> = Vec::with_capacity(node_core_count);
                let mut t: usize = 0;
                while t < node_core_count
                    invariant
                        t <= node_core_count,
                        first + node_core_count <= l,
                        core_idx == first + t,
                        node_cores@ =~= Seq::new(t as nat, |i: int| (first + i) as usize),
                    decreases node_core_count - t,
                {
                    node_cores.push(core_idx);
                    core_idx = core_idx + 1;
                    t = t + 1;
                }
                let ghost before = numa_nodes@;
                let node = NumaNode::new(node_id, node_cores);
                proof {
                    assert(node_core_count == mock_node_size(l, m, node_id as int));
                    assert(mock_nodes(l, m)[node_id as int] == node@);
                    assert(mock_nodes(l, m).take(node_id + 1) =~= mock_nodes(l, m).take(
                        node_id as int,
                    ).push(node@));
                }
                numa_nodes.push(node);
                assert(nodes_view(numa_nodes@) =~= nodes_view(before).push(node@));
                node_id = node_id + 1;
            }
            assert(mock_nodes(l, m).take(m as int) =~= mock_nodes(l, m));
        } else {
            numa_nodes.push(NumaNode::new(0, core_range_vec(logical_cores)));
            assert(nodes_view(numa_nodes@) =~= mock_nodes(l, m));
        }
        CpuInfo {
            logical_cores,
            physical_cores: Some(logical_cores / 2),
            numa_nodes,
            numa_available: numa_nodes_count > 0,
        }
    }

    /// The debugging form of the topology, such as
    /// `CpuInfo { logical_cores: 8, physical_cores: Some(4), numa_nodes: 2, numa_available: true }`,
    /// which counts the nodes rather than listing them.
    pub open spec fn spec_debug_text(self) -> Seq<char> {
        "CpuInfo { logical_cores: "@ + decimal_text(self@.logical_cores as nat)
            + ", physical_cores: "@ + match self@.physical_cores {
            Some(p) => "Some("@ + decimal_text(p as nat) + ")"@,
            None => "None"@,
        } + ", numa_nodes: "@ + decimal_text(self@.numa_nodes.len()) + ", numa_available: "@
            + bool_text(self@.numa_available) + " }"@
    }

    /// Returns the debugging form of the topology.
    pub fn debug_string(&self) -> (d: String)
        ensures
            d@ == self.spec_debug_text(),
    {
        let mut d = "CpuInfo { logical_cores: ".to_owned();
        push_decimal(&mut d, self.logical_cores);
        d.append(", physical_cores: ");
        match self.physical_cores {
            Some(p) => {
                d.append("Some(");
                push_decimal(&mut d, p);
                d.append(")");
            },
            None => {
                d.append("None");
            },
        }
        d.append(", numa_nodes: ");
        push_decimal(&mut d, self.numa_nodes.len());
        d.append(", numa_available: ");
        push_bool(&mut d, self.numa_available);
        d.append(" }");
        d
    }

    /// Parses a CPU list such as `0-2,4,6-8` into the cores it names.
    /// Parts that do not parse are skipped.
    pub fn parse_cpu_list(cpulist: &str) -> (cores: Vec<usize>)
        ensures
            cores@ == spec_parse_cpu_list(cpulist@),
    {
        let text = chars_of(cpulist);
        let parts = split_chars(&text, ',');
        let ghost pieces = split_on(text@, ',');
        let mut cores: Vec<usize> = Vec::new();
        let mut i: usize = 0;
        while i < parts.len()
            invariant
                0 <= i <= parts@.len(),
                parts@.len() == pieces.len(),
                forall|j: int| 0 <= j < parts@.len() ==> #[trigger] parts@[j]@ == pieces[j],
                cores@ == cores_in_parts(pieces.take(i as int)),
            decreases parts@.len() - i,
        {
            let part = &parts[i];
            proof {
                assert(pieces.take(i + 1).drop_last() =~= pieces.take(i as int));
                assert(pieces.take(i + 1).last() == part@);
            }
            if contains_char(part, '-') {
                let range = split_chars(part, '-');
                if range.len() == 2 {
                    let start = parse_usize_chars(&trimmed(&range[0]));
                    let end = parse_usize_chars(&trimmed(&range[1]));
                    match (start, end) {
                        (Some(start), Some(end)) => {
                            push_range(&mut cores, start, end);
                        },
                        _ => {
                            assert(cores@ =~= cores@ + cores_in_part(part@));
                        },
                    }
                } else {
                    assert(cores@ =~= cores@ + cores_in_part(part@));
                }
            } else {
                match parse_usize_chars(&trimmed(part)) {
                    Some(core) => {
                        cores.push(core);
                        assert(cores@ =~= cores_in_parts(pieces.take(i as int)) + cores_in_part(
                            part@,
                        ));
                    },
                    None => {
                        assert(cores@ =~= cores@ + cores_in_part(part@));
                    },
                }
            }
            i = i + 1;
        }
        assert(pieces.take(parts@.len() as int) =~= pieces);
        cores
    }
}

} // verus!
