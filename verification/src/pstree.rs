//! The process tree behind the stats route: parsing one process's
//! status text, assembling the tree, and rendering it as indented text.
//! Reading the process table itself is I/O and happens at the edge; the
//! text handed in is parsed and shaped here.
use vstd::prelude::*;

use std::collections::HashMap;

use crate::qs::{find_from, split_on, split_pair_on, split_push};
use crate::text::{all_digits, ascii_bytes, ascii_chars, ascii_to_string, bytes_to_string, dec_of,
    dec_val, key_is, lemma_dec_of_val, push_u64_dec};
use vstd::utf8::encode_utf8;
use vstd::utf8::valid_utf8;

verus! {

broadcast use vstd::std_specs::hash::group_hash_axioms;

/// One process: its name, id, parent id, and the ids of its children.
#[derive(Clone, Debug)]
pub struct ProcessTreeNode {
    pub name: String,
    pub pid: u32,
    pub ppid: u32,
    pub children: Vec<u32>,
}

/// A process tree: its root and the map every node lives in.
#[derive(Clone, Debug)]
pub struct ProcessTree {
    pub root: ProcessTreeNode,
    pub pid_map: HashMap<u32, ProcessTreeNode>,
}

/// ASCII whitespace, as `trim` strips it.
pub open spec fn is_ws(b: u8) -> bool {
    b == 0x20 || (0x09 <= b && b <= 0x0d)
}

/// Leading whitespace stripped.
pub open spec fn trim_front(s: Seq<u8>) -> Seq<u8>
    decreases s.len(),
{
    if s.len() > 0 && is_ws(s[0]) {
        trim_front(s.drop_first())
    } else {
        s
    }
}

/// Trailing whitespace stripped.
pub open spec fn trim_back(s: Seq<u8>) -> Seq<u8>
    decreases s.len(),
{
    if s.len() > 0 && is_ws(s.last()) {
        trim_back(s.drop_last())
    } else {
        s
    }
}

/// Whitespace stripped from both ends.
pub open spec fn spec_trim(s: Seq<u8>) -> Seq<u8> {
    trim_back(trim_front(s))
}

/// Copies `s[start..end]` with surrounding whitespace stripped.
fn trim_copy(s: &[u8], start: usize, end: usize) -> (r: Vec<u8>)
    requires
        start <= end <= s@.len(),
    ensures
        r@ == spec_trim(s@.subrange(start as int, end as int)),
{
    let mut a = start;
    while a < end && (s[a] == 0x20 || (0x09 <= s[a] && s[a] <= 0x0d))
        invariant
            start <= a <= end <= s@.len(),
            trim_front(s@.subrange(start as int, end as int)) == trim_front(
                s@.subrange(a as int, end as int),
            ),
        decreases end - a,
    {
        proof {
            assert(s@.subrange(a as int, end as int).drop_first() =~= s@.subrange(
                a as int + 1,
                end as int,
            ));
        }
        a = a + 1;
    }
    proof {
        assert(trim_front(s@.subrange(a as int, end as int)) == s@.subrange(a as int, end as int));
    }
    let mut b = end;
    while b > a && (s[b - 1] == 0x20 || (0x09 <= s[b - 1] && s[b - 1] <= 0x0d))
        invariant
            a <= b <= end <= s@.len(),
            trim_back(s@.subrange(a as int, end as int)) == trim_back(
                s@.subrange(a as int, b as int),
            ),
        decreases b,
    {
        proof {
            assert(s@.subrange(a as int, b as int).drop_last() =~= s@.subrange(
                a as int,
                b as int - 1,
            ));
        }
        b = b - 1;
    }
    proof {
        assert(trim_back(s@.subrange(a as int, b as int)) == s@.subrange(a as int, b as int));
    }
    vstd::slice::slice_to_vec(&s[a..b])
}

/// A `u32` status value: decimal digits only.
pub open spec fn spec_parse_u32(v: Seq<u8>) -> Option<u32> {
    if v.len() > 0 && all_digits(v) && dec_val(v) <= u32::MAX {
        Some(dec_val(v) as u32)
    } else {
        None
    }
}

/// The three fields a status text yields, as the scan of its lines
/// leaves them: a later line overwrites an earlier one, and a `Pid` or
/// `PPid` line that does not parse clears the field.
pub open spec fn status_step(
    acc: (Option<Seq<u8>>, Option<u32>, Option<u32>),
    line: Seq<u8>,
) -> (Option<Seq<u8>>, Option<u32>, Option<u32>) {
    if !line.contains(0x3a) {
        acc
    } else {
        let (k, v) = split_pair_on(line, 0x3a);
        let key = spec_trim(k);
        let value = spec_trim(v);
        if key == ascii_bytes("Name"@) {
            (Some(value), acc.1, acc.2)
        } else if key == ascii_bytes("Pid"@) {
            (acc.0, spec_parse_u32(value), acc.2)
        } else if key == ascii_bytes("PPid"@) {
            (acc.0, acc.1, spec_parse_u32(value))
        } else {
            acc
        }
    }
}

/// Scans the lines left to right.
pub open spec fn status_fold(
    lines: Seq<Seq<u8>>,
    acc: (Option<Seq<u8>>, Option<u32>, Option<u32>),
) -> (Option<Seq<u8>>, Option<u32>, Option<u32>)
    decreases lines.len(),
{
    if lines.len() == 0 {
        acc
    } else {
        status_fold(lines.drop_first(), status_step(acc, lines[0]))
    }
}

/// What a status text names: process name, id and parent id, if the
/// scan leaves all three set and the name is UTF-8.
pub open spec fn spec_parse_status(text: Seq<u8>) -> Option<(Seq<u8>, u32, u32)> {
    let acc = status_fold(split_on(text, 0x0a), (None, None, None));
    match (acc.0, acc.1, acc.2) {
        (Some(name), Some(pid), Some(ppid)) => if valid_utf8(name) {
            Some((name, pid, ppid))
        } else {
            None
        },
        _ => None,
    }
}

/// Parses one process's status text into a childless node; nothing when
/// a name, id or parent id is missing.
#[verifier::loop_isolation(false)]
pub fn parse_status_record(text: &str) -> (r: Option<ProcessTreeNode>)
    ensures
        match r {
            Some(n) => spec_parse_status(encode_utf8(text@)) == Some(
                (encode_utf8(n.name@), n.pid, n.ppid),
            ) && n.children@.len() == 0,
            None => spec_parse_status(encode_utf8(text@)) is None,
        },
{
    let tb = text.as_bytes_vec();
    let mut lines: Vec<Vec<u8>> = Vec::new();
    split_push(&mut lines, tb.as_slice(), 0, 0x0a);
    let ghost lv = lines@.map_values(|v: Vec<u8>| v@);
    proof {
        assert(tb@.skip(0) =~= tb@);
        assert(lv == split_on(encode_utf8(text@), 0x0a));
        reveal_strlit("Name");
        reveal_strlit("Pid");
        reveal_strlit("PPid");
        assert(("Name").is_ascii());
        assert(("Pid").is_ascii());
        assert(("PPid").is_ascii());
    }
    let mut name: Option<Vec<u8>> = None;
    let mut pid: Option<u32> = None;
    let mut ppid: Option<u32> = None;
    let mut k: usize = 0;
    proof {
        assert(lv.skip(0) =~~= lv);
    }
    while k < lines.len()
        invariant
            k <= lines.len(),
            lv == lines@.map_values(|v: Vec<u8>| v@),
            lv.len() == lines@.len(),
            status_fold(lv, (None, None, None)) == status_fold(
                lv.skip(k as int),
                (
                    match name {
                        Some(ref v) => Some(v@),
                        None => None,
                    },
                    pid,
                    ppid,
                ),
            ),
        decreases lines.len() - k,
    {
        let ghost acc0: (Option<Seq<u8>>, Option<u32>, Option<u32>) = (
            match name {
                Some(ref v) => Some(v@),
                None => None,
            },
            pid,
            ppid,
        );
        let line = &lines[k];
        proof {
            assert(lv.skip(k as int)[0] == lv[k as int]);
            assert(lv[k as int] == line@);
            assert(lv.skip(k as int).drop_first() =~~= lv.skip(k as int + 1));
        }
        let colon = find_from(line.as_slice(), 0, 0x3a);
        if colon < line.len() {
            proof {
                assert(line@.contains(0x3a)) by {
                    assert(line@[colon as int] == 0x3a);
                }
                let kk = line@.subrange(0, colon as int);
                let vv = line@.subrange(colon as int + 1, line@.len() as int);
                assert(line@ =~= kk + seq![0x3au8] + vv);
                crate::qs::lemma_split_pair_on_concat(kk, vv, 0x3a);
            }
            let key = trim_copy(line.as_slice(), 0, colon);
            let value = trim_copy(line.as_slice(), colon + 1, line.len());
            if key_is(&key, "Name") {
                name = Some(value);
            } else if key_is(&key, "Pid") {
                pid = match crate::text::parse_u64_dec(value.as_slice()) {
                    Some(x) => if x <= 0xffff_ffff {
                        Some(x as u32)
                    } else {
                        None
                    },
                    None => None,
                };
            } else if key_is(&key, "PPid") {
                ppid = match crate::text::parse_u64_dec(value.as_slice()) {
                    Some(x) => if x <= 0xffff_ffff {
                        Some(x as u32)
                    } else {
                        None
                    },
                    None => None,
                };
            }
        } else {
            proof {
                assert(forall|i: int| 0 <= i < line@.len() ==> line@[i] != 0x3a);
                assert(!line@.contains(0x3a)) by {
                    if line@.contains(0x3a) {
                        let w = choose|i: int| 0 <= i < line@.len() && line@[i] == 0x3a;
                        assert(false);
                    }
                }
            }
        }
        proof {
            let accn: (Option<Seq<u8>>, Option<u32>, Option<u32>) = (
                match name {
                    Some(ref v) => Some(v@),
                    None => None,
                },
                pid,
                ppid,
            );
            assert(accn == status_step(acc0, lv[k as int]));
        }
        k = k + 1;
    }
    proof {
        assert(lv.skip(k as int).len() == 0);
    }
    let name_b = match name {
        Some(v) => v,
        None => {
            return None;
        },
    };
    let pid_v = match pid {
        Some(p) => p,
        None => {
            return None;
        },
    };
    let ppid_v = match ppid {
        Some(p) => p,
        None => {
            return None;
        },
    };
    match bytes_to_string(name_b) {
        Some(name_s) => Some(
            ProcessTreeNode { name: name_s, pid: pid_v, ppid: ppid_v, children: Vec::new() },
        ),
        None => None,
    }
}

/// The children a process with id `pid` has among the scanned records,
/// in table order.
pub open spec fn children_of(nodes: Seq<ProcessTreeNode>, pid: u32) -> Seq<u32>
    decreases nodes.len(),
{
    if nodes.len() == 0 {
        Seq::empty()
    } else {
        let rest = children_of(nodes.drop_first(), pid);
        if nodes[0].ppid == pid {
            seq![nodes[0].pid] + rest
        } else {
            rest
        }
    }
}

/// One more record contributes its pid exactly when its parent matches.
pub proof fn lemma_children_snoc(nodes: Seq<ProcessTreeNode>, n: ProcessTreeNode, pid: u32)
    ensures
        children_of(nodes.push(n), pid) == children_of(nodes, pid) + if n.ppid == pid {
            seq![n.pid]
        } else {
            Seq::<u32>::empty()
        },
    decreases nodes.len(),
{
    let tail: Seq<u32> = if n.ppid == pid {
        seq![n.pid]
    } else {
        Seq::<u32>::empty()
    };
    if nodes.len() == 0 {
        assert(nodes.push(n)[0] == n);
        assert(nodes.push(n).drop_first() =~~= Seq::<ProcessTreeNode>::empty());
        assert(children_of(Seq::<ProcessTreeNode>::empty(), pid) == Seq::<u32>::empty());
        assert(children_of(nodes, pid) == Seq::<u32>::empty());
        assert(children_of(nodes.push(n), pid) =~= Seq::<u32>::empty() + tail);
        assert(children_of(nodes, pid) + tail =~= children_of(nodes.push(n), pid));
    } else {
        assert(nodes.push(n).drop_first() =~~= nodes.drop_first().push(n));
        lemma_children_snoc(nodes.drop_first(), n, pid);
        assert(nodes.push(n)[0] == nodes[0]);
        if nodes[0].ppid == pid {
            assert(children_of(nodes.push(n), pid) == seq![nodes[0].pid] + (children_of(
                nodes.drop_first(),
                pid,
            ) + tail));
            assert(seq![nodes[0].pid] + (children_of(nodes.drop_first(), pid) + tail) =~= (seq![
                nodes[0].pid,
            ] + children_of(nodes.drop_first(), pid)) + tail);
        }
    }
}

/// The children a node gets in the built tree: the matching records in
/// order, and — for the root — the root itself, whose parent id is its
/// own.
pub open spec fn tree_children(records: Seq<ProcessTreeNode>, pid: u32) -> Seq<u32> {
    children_of(records, pid) + if pid == 0 {
        seq![0u32]
    } else {
        Seq::<u32>::empty()
    }
}

/// Collects the children of `pid` over the records and the synthetic
/// root.
fn collect_children(records: &Vec<ProcessTreeNode>, pid: u32) -> (r: Vec<u32>)
    ensures
        r@ == tree_children(records@, pid),
{
    let mut r: Vec<u32> = Vec::new();
    let mut j: usize = 0;
    proof {
        assert(records@.take(0) =~~= Seq::<ProcessTreeNode>::empty());
    }
    while j < records.len()
        invariant
            j <= records@.len(),
            r@ == children_of(records@.take(j as int), pid),
        decreases records@.len() - j,
    {
        proof {
            assert(records@.take(j as int + 1) =~~= records@.take(j as int).push(
                records@[j as int],
            ));
            lemma_children_snoc(records@.take(j as int), records@[j as int], pid);
        }
        if records[j].ppid == pid {
            r.push(records[j].pid);
            proof {
                assert(r@ =~= children_of(records@.take(j as int + 1), pid));
            }
        }
        j = j + 1;
    }
    proof {
        assert(records@.take(j as int) =~~= records@);
    }
    if pid == 0 {
        r.push(0);
        proof {
            assert(r@ =~= tree_children(records@, pid));
        }
    } else {
        proof {
            assert(r@ =~= tree_children(records@, pid));
        }
    }
    r
}

/// Builds the process tree from the scanned records: every record
/// becomes a node under its own id, a synthetic root with id zero is
/// added, and each node's children are the ids whose records name it as
/// parent.
pub fn build_process_tree(records: Vec<ProcessTreeNode>) -> (r: HashMap<u32, ProcessTreeNode>)
    requires
        forall|i: int, j: int|
            #![trigger records@[i], records@[j]]
            0 <= i < j < records@.len() ==> records@[i].pid != records@[j].pid,
        forall|i: int| 0 <= i < records@.len() ==> (#[trigger] records@[i]).pid != 0,
    ensures
        forall|p: u32|
            r@.contains_key(p) <==> (p == 0 || exists|i: int|
                0 <= i < records@.len() && (#[trigger] records@[i]).pid == p),
        forall|i: int|
            0 <= i < records@.len() ==> {
                let n = #[trigger] records@[i];
                &&& r@.contains_key(n.pid)
                &&& r@[n.pid].name == n.name
                &&& r@[n.pid].pid == n.pid
                &&& r@[n.pid].ppid == n.ppid
                &&& r@[n.pid].children@ == tree_children(records@, n.pid)
            },
        r@.contains_key(0) && r@[0].name@ == "/"@ && r@[0].pid == 0u32 && r@[0].ppid == 0u32
            && r@[0].children@ == tree_children(records@, 0),
{
    let mut map: HashMap<u32, ProcessTreeNode> = HashMap::new();
    let mut i: usize = 0;
    while i < records.len()
        invariant
            i <= records@.len(),
            forall|i2: int, j2: int|
                #![trigger records@[i2], records@[j2]]
                0 <= i2 < j2 < records@.len() ==> records@[i2].pid != records@[j2].pid,
            forall|p: u32|
                map@.contains_key(p) <==> exists|i2: int|
                    0 <= i2 < i && (#[trigger] records@[i2]).pid == p,
            forall|i2: int|
                0 <= i2 < i ==> {
                    let n = #[trigger] records@[i2];
                    &&& map@.contains_key(n.pid)
                    &&& map@[n.pid].name == n.name
                    &&& map@[n.pid].pid == n.pid
                    &&& map@[n.pid].ppid == n.ppid
                    &&& map@[n.pid].children@ == tree_children(records@, n.pid)
                },
        decreases records@.len() - i,
    {
        let children = collect_children(&records, records[i].pid);
        let node = ProcessTreeNode {
            name: records[i].name.clone(),
            pid: records[i].pid,
            ppid: records[i].ppid,
            children,
        };
        map.insert(node.pid, node);
        i = i + 1;
    }
    let root_children = collect_children(&records, 0);
    let root = ProcessTreeNode {
        name: "/".to_owned(),
        pid: 0,
        ppid: 0,
        children: root_children,
    };
    map.insert(0, root);
    map
}

/// Every child id a node of the map lists is itself a key of the map.
pub open spec fn map_closed(m: Map<u32, ProcessTreeNode>) -> bool {
    forall|p: u32, j: int|
        m.contains_key(p) && 0 <= j < m[p].children@.len() ==> m.contains_key(
            #[trigger] m[p].children@[j],
        )
}

/// Two spaces per indent level.
pub open spec fn indent_chars(n: nat) -> Seq<char>
    decreases n,
{
    if n == 0 {
        Seq::empty()
    } else {
        indent_chars((n - 1) as nat) + "  "@
    }
}

/// The rendered line of one node: its indentation, a dash, its name and
/// id, and a newline.
pub open spec fn node_line(node: ProcessTreeNode, indent: u32) -> Seq<char> {
    indent_chars(indent as nat) + "- "@ + node.name@ + " #"@ + ascii_chars(
        dec_of(node.pid as nat),
    ) + "\n"@
}

/// The rendering of a node: its own line, then each child's subtree one
/// level deeper. The indentation depth bounds the recursion; levels
/// beyond the representable depth render no children.
pub open spec fn spec_format_node(node: ProcessTreeNode, indent: u32, m: Map<u32, ProcessTreeNode>) -> Seq<char>
    decreases u32::MAX - indent, 1nat, 0nat,
{
    node_line(node, indent) + if indent < u32::MAX {
        spec_format_children(node, 0, indent, m)
    } else {
        Seq::empty()
    }
}

/// The renderings of the children from index `k` on.
pub open spec fn spec_format_children(
    node: ProcessTreeNode,
    k: int,
    indent: u32,
    m: Map<u32, ProcessTreeNode>,
) -> Seq<char>
    decreases u32::MAX - indent, 0nat, node.children@.len() - k,
{
    if indent < u32::MAX && 0 <= k < node.children@.len() {
        let part = if m.contains_key(node.children@[k]) {
            spec_format_node(m[node.children@[k]], (indent + 1) as u32, m)
        } else {
            Seq::<char>::empty()
        };
        part + spec_format_children(node, k + 1, indent, m)
    } else {
        Seq::empty()
    }
}

/// The decimal rendering of a process id.
fn u32_dec_string(n: u32) -> (r: String)
    ensures
        r@ == ascii_chars(dec_of(n as nat)),
{
    let mut v: Vec<u8> = Vec::new();
    push_u64_dec(&mut v, n as u64);
    proof {
        lemma_dec_of_val(n as nat);
    }
    ascii_to_string(v)
}

/// Renders a node and its descendants as indented text, one line per
/// process.
pub fn format_node(
    node: &ProcessTreeNode,
    indent_level: u32,
    pid_map: &HashMap<u32, ProcessTreeNode>,
) -> (r: String)
    requires
        map_closed(pid_map@),
        forall|j: int|
            0 <= j < node.children@.len() ==> pid_map@.contains_key(#[trigger] node.children@[j]),
    ensures
        r@ == spec_format_node(*node, indent_level, pid_map@),
    decreases u32::MAX - indent_level,
{
    let mut res = String::new();
    let mut lvl: u32 = 0;
    while lvl < indent_level
        invariant
            lvl <= indent_level,
            res@ == indent_chars(lvl as nat),
        decreases indent_level - lvl,
    {
        res.append("  ");
        lvl = lvl + 1;
    }
    res.append("- ");
    res.append(node.name.as_str());
    res.append(" #");
    let pid_s = u32_dec_string(node.pid);
    res.append(pid_s.as_str());
    res.append("\n");
    proof {
        assert(res@ =~= node_line(*node, indent_level));
    }
    if indent_level < u32::MAX {
        let ghost header = res@;
        let mut k: usize = 0;
        while k < node.children.len()
            invariant
                k <= node.children@.len(),
                map_closed(pid_map@),
                forall|j: int|
                    0 <= j < node.children@.len() ==> pid_map@.contains_key(
                        #[trigger] node.children@[j],
                    ),
                indent_level < u32::MAX,
                header == node_line(*node, indent_level),
                res@ + spec_format_children(*node, k as int, indent_level, pid_map@)
                    == spec_format_node(*node, indent_level, pid_map@),
            decreases node.children@.len() - k,
        {
            let c = node.children[k];
            match pid_map.get(&c) {
                Some(child) => {
                    proof {
                        assert(pid_map@.contains_key(c));
                        assert(*child == pid_map@[c]);
                        assert(forall|j: int|
                            0 <= j < child.children@.len() ==> pid_map@.contains_key(
                                #[trigger] child.children@[j],
                            ));
                    }
                    let sub = format_node(child, indent_level + 1, pid_map);
                    res.append(sub.as_str());
                    proof {
                        assert(res@ + spec_format_children(
                            *node,
                            k as int + 1,
                            indent_level,
                            pid_map@,
                        ) =~= spec_format_node(*node, indent_level, pid_map@));
                    }
                },
                None => {
                    proof {
                        assert(pid_map@.contains_key(c));
                        assert(false);
                    }
                },
            }
            k = k + 1;
        }
        proof {
            assert(spec_format_children(*node, k as int, indent_level, pid_map@)
                == Seq::<char>::empty());
            assert(res@ + Seq::<char>::empty() =~= res@);
        }
    } else {
        proof {
            assert(res@ =~= spec_format_node(*node, indent_level, pid_map@));
        }
    }
    res
}

} // verus!
