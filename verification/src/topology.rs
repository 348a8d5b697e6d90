//! The synthetic sysfs tree a session's containers see: the topology
//! files of the emulated GPUs, one empty render node per DRM minor the
//! topology names, and an empty `/dev/kfd`, laid out under a session
//! directory to be bind-mounted into the containers.

use vstd::prelude::*;

use crate::docker::{path_join, spec_path_join};
use crate::schema::Topology;
use crate::text::{
    decimal, decode_utf8, parse_u32, push_char, spec_parse_unsigned, spec_starts_with, spec_trim, strip_prefix,
    to_owned, trim, u64_to_string, utf8_strict,
};

verus! {

/// Where the topology files go under the session directory.
pub const TOPOLOGY_SUBDIR: &'static str = "sys/class/kfd/kfd/topology";

/// The key of a node property that names its DRM render minor.
pub const RENDER_MINOR_KEY: &'static str = "drm_render_minor ";

/// The segments of `s` between newlines (one empty segment for empty
/// text).
pub open spec fn split_lines(s: Seq<char>) -> Seq<Seq<char>>
    decreases s.len(),
{
    if s.len() == 0 {
        seq![seq![]]
    } else {
        let p = split_lines(s.drop_last());
        if s.last() == '\n' {
            p.push(seq![])
        } else {
            p.update(p.len() - 1, p.last().push(s.last()))
        }
    }
}

/// The lines of a text, as `str::lines` yields them: a final newline ends
/// the last line instead of starting an empty one, and empty text has no
/// lines. (A carriage return before a newline stays on its line; the
/// lines read here are trimmed, which drops it.)
pub open spec fn text_lines(s: Seq<char>) -> Seq<Seq<char>> {
    if s.len() == 0 {
        seq![]
    } else if s.last() == '\n' {
        split_lines(s.drop_last())
    } else {
        split_lines(s)
    }
}

/// The render minor a property line names: a positive number after
/// `drm_render_minor `, surrounding whitespace aside.
pub open spec fn line_minor(line: Seq<char>) -> Option<u32> {
    if spec_starts_with(line, RENDER_MINOR_KEY@) {
        match spec_parse_unsigned(spec_trim(line.subrange(RENDER_MINOR_KEY@.len() as int, line.len() as int)), u32::MAX as nat) {
            Some(n) => if n > 0 { Some(n as u32) } else { None },
            None => None,
        }
    } else {
        None
    }
}

/// The render minors named by `lines`, in order.
pub open spec fn minors_in_lines(lines: Seq<Seq<char>>) -> Seq<u32>
    decreases lines.len(),
{
    if lines.len() == 0 {
        seq![]
    } else {
        let before = minors_in_lines(lines.drop_last());
        match line_minor(lines.last()) {
            Some(n) => before.push(n),
            None => before,
        }
    }
}

/// Whether `s` ends with `suffix`.
pub open spec fn spec_ends_with(s: Seq<char>, suffix: Seq<char>) -> bool {
    suffix.len() <= s.len() && s.subrange(s.len() - suffix.len(), s.len() as int) == suffix
}

/// The render minors a topology file names: only a node's `properties`
/// file names any, and only when it is valid UTF-8.
pub open spec fn file_minors(name: Seq<char>, data: Seq<u8>) -> Seq<u32> {
    if spec_ends_with(name, "/properties"@) {
        match utf8_strict(data) {
            Some(text) => minors_in_lines(text_lines(text)),
            None => seq![],
        }
    } else {
        seq![]
    }
}

/// The render minors all topology files name, file by file.
pub open spec fn topology_minors(files: Seq<(String, Vec<u8>)>) -> Seq<u32>
    decreases files.len(),
{
    if files.len() == 0 {
        seq![]
    } else {
        topology_minors(files.drop_last()) + file_minors(files.last().0@, files.last().1@)
    }
}

/// `dir` joined with `name` as `Path::join` does: an absolute name
/// replaces the directory.
pub open spec fn spec_join_any(dir: Seq<char>, name: Seq<char>) -> Seq<char> {
    if name.len() > 0 && name[0] == '/' { name } else { spec_path_join(dir, name) }
}

/// The directories and files of a session's synthetic tree.
#[derive(Debug, PartialEq, Eq)]
pub struct TopologyPlan {
    /// Directories to create even when no file lands in them.
    pub dirs: Vec<String>,
    /// Each file's path and contents, in the order to write them.
    pub files: Vec<(String, Vec<u8>)>,
}

fn ends_with(s: &str, suffix: &str) -> (r: bool)
    ensures
        r == spec_ends_with(s@, suffix@),
{
    let n = s.unicode_len();
    let m = suffix.unicode_len();
    if m > n {
        return false;
    }
    let mut i: usize = 0;
    while i < m
        invariant
            m <= n,
            n == s@.len(),
            m == suffix@.len(),
            0 <= i <= m,
            forall|j: int| 0 <= j < i ==> s@[n - m + j] == suffix@[j],
        decreases m - i,
    {
        if s.get_char(n - m + i) != suffix.get_char(i) {
            assert(s@.subrange(n - m, n as int)[i as int] != suffix@[i as int]);
            return false;
        }
        i += 1;
    }
    assert(s@.subrange(n - m, n as int) =~= suffix@);
    true
}

fn line_minor_of(line: &str) -> (r: Option<u32>)
    ensures
        r == line_minor(line@),
{
    match strip_prefix(line, RENDER_MINOR_KEY) {
        None => None,
        Some(rest) => {
            let t = trim(rest);
            match parse_u32(t.as_str()) {
                Some(n) => if n > 0 { Some(n) } else { None },
                None => None,
            }
        },
    }
}

proof fn lemma_split_nonempty(s: Seq<char>)
    ensures
        split_lines(s).len() >= 1,
    decreases s.len(),
{
    if s.len() > 0 {
        lemma_split_nonempty(s.drop_last());
    }
}

/// The render minors named by the lines of `text`.
fn minors_in_text(text: &str) -> (r: Vec<u32>)
    ensures
        r@ == minors_in_lines(text_lines(text@)),
{
    let n = text.unicode_len();
    let mut found: Vec<u32> = Vec::new();
    let mut current = String::new();
    let mut i: usize = 0;
    proof {
        assert(text@.take(0) =~= seq![]);
    }
    while i < n
        invariant
            0 <= i <= n,
            n == text@.len(),
            split_lines(text@.take(i as int)).len() >= 1,
            current@ == split_lines(text@.take(i as int)).last(),
            found@ == minors_in_lines(split_lines(text@.take(i as int)).drop_last()),
        decreases n - i,
    {
        let c = text.get_char(i);
        let ghost before = split_lines(text@.take(i as int));
        proof {
            assert(text@.take(i + 1).drop_last() =~= text@.take(i as int));
            assert(text@.take(i + 1).last() == c);
        }
        if c == '\n' {
            let line = current;
            if let Some(m) = line_minor_of(line.as_str()) {
                found.push(m);
            }
            current = String::new();
            proof {
                let after = split_lines(text@.take(i + 1));
                assert(after == before.push(seq![]));
                assert(after.drop_last() =~= before);
                assert(before.drop_last().push(before.last()) =~= before);
            }
        } else {
            push_char(&mut current, c);
            proof {
                let after = split_lines(text@.take(i + 1));
                assert(after == before.update(before.len() - 1, before.last().push(c)));
                assert(after.drop_last() =~= before.drop_last());
            }
        }
        i += 1;
    }
    proof {
        assert(text@.take(n as int) =~= text@);
    }
    if n > 0 && text.get_char(n - 1) != '\n' {
        let line = current;
        let ghost parts = split_lines(text@);
        if let Some(m) = line_minor_of(line.as_str()) {
            found.push(m);
        }
        proof {
            assert(parts.drop_last().push(parts.last()) =~= parts);
        }
    } else if n > 0 {
        proof {
            let parts = split_lines(text@);
            assert(text@.drop_last().push(text@.last()) =~= text@);
            assert(parts == split_lines(text@.drop_last()).push(seq![]));
            assert(parts.drop_last() =~= split_lines(text@.drop_last()));
        }
    }
    found
}

/// The render minors one topology file names.
fn minors_of_file(name: &str, data: &Vec<u8>) -> (r: Vec<u32>)
    ensures
        r@ == file_minors(name@, data@),
{
    if !ends_with(name, "/properties") {
        return Vec::new();
    }
    match decode_utf8(data.as_slice()) {
        Some(text) => minors_in_text(text.as_str()),
        None => Vec::new(),
    }
}

fn join_any(dir: &str, name: &str) -> (r: String)
    ensures
        r@ == spec_join_any(dir@, name@),
{
    if name.unicode_len() > 0 && name.get_char(0) == '/' {
        to_owned(name)
    } else {
        path_join(dir, name)
    }
}

/// The path of the render node of `minor` in the tree under `root`.
pub open spec fn render_node_path(root: Seq<char>, minor: u32) -> Seq<char> {
    spec_path_join(spec_path_join(root, "dev/dri"@), "renderD"@ + decimal(minor as nat))
}

/// Lay out the synthetic tree of `topology` under `root`: each topology
/// file below [`TOPOLOGY_SUBDIR`], then an empty render node
/// `dev/dri/renderD<minor>` for each minor the topology's `properties`
/// files name (in the order named), then an empty `dev/kfd`; the
/// directories `dev/dri` and `dev` are created even when empty.
pub fn topology_plan(root: &str, topology: &Topology) -> (r: TopologyPlan)
    ensures
        ({
            let tf = topology.files@;
            let minors = topology_minors(tf);
            let base = spec_path_join(root@, TOPOLOGY_SUBDIR@);
            &&& r.dirs@.len() == 2
            &&& r.dirs@[0]@ == spec_path_join(root@, "dev/dri"@)
            &&& r.dirs@[1]@ == spec_path_join(root@, "dev"@)
            &&& r.files@.len() == tf.len() + minors.len() + 1
            &&& forall|i: int| 0 <= i < tf.len() ==> (#[trigger] r.files@[i]).0@ == spec_join_any(base, tf[i].0@)
                && r.files@[i].1@ == tf[i].1@
            &&& forall|j: int| 0 <= j < minors.len() ==> (#[trigger] r.files@[tf.len() + j]).0@ == render_node_path(root@, minors[j])
                && r.files@[tf.len() + j].1@.len() == 0
            &&& r.files@[(tf.len() + minors.len()) as int].0@ == spec_path_join(spec_path_join(root@, "dev"@), "kfd"@)
            &&& r.files@[(tf.len() + minors.len()) as int].1@.len() == 0
        }),
{
    let base = path_join(root, TOPOLOGY_SUBDIR);
    let tf = &topology.files;
    let mut files: Vec<(String, Vec<u8>)> = Vec::new();
    let mut minors: Vec<u32> = Vec::new();
    let mut i: usize = 0;
    while i < tf.len()
        invariant
            0 <= i <= tf@.len(),
            base@ == spec_path_join(root@, TOPOLOGY_SUBDIR@),
            files@.len() == i,
            forall|k: int| 0 <= k < i ==> (#[trigger] files@[k]).0@ == spec_join_any(base@, tf@[k].0@) && files@[k].1@ == tf@[k].1@,
            minors@ == topology_minors(tf@.take(i as int)),
        decreases tf@.len() - i,
    {
        let (name, data) = (&tf[i].0, &tf[i].1);
        files.push((join_any(base.as_str(), name.as_str()), crate::text::copy_bytes(data.as_slice())));
        let found = minors_of_file(name.as_str(), data);
        let ghost before = minors@;
        minors.append(&mut found.clone());
        proof {
            assert(tf@.take(i + 1).drop_last() =~= tf@.take(i as int));
            assert(tf@.take(i + 1).last() == tf@[i as int]);
        }
        i += 1;
    }
    proof {
        assert(tf@.take(i as int) =~= tf@);
    }
    let dri = path_join(root, "dev/dri");
    let mut j: usize = 0;
    while j < minors.len()
        invariant
            0 <= j <= minors@.len(),
            minors@ == topology_minors(tf@),
            dri@ == spec_path_join(root@, "dev/dri"@),
            files@.len() == tf@.len() + j,
            forall|k: int| 0 <= k < tf@.len() ==> (#[trigger] files@[k]).0@ == spec_join_any(base@, tf@[k].0@) && files@[k].1@ == tf@[k].1@,
            forall|k: int| 0 <= k < j ==> (#[trigger] files@[tf@.len() + k]).0@ == render_node_path(root@, minors@[k])
                && files@[tf@.len() + k].1@.len() == 0,
        decreases minors@.len() - j,
    {
        let mut leaf = to_owned("renderD");
        crate::text::push_str(&mut leaf, u64_to_string(minors[j] as u64).as_str());
        files.push((path_join(dri.as_str(), leaf.as_str()), Vec::new()));
        j += 1;
    }
    let dev = path_join(root, "dev");
    files.push((path_join(dev.as_str(), "kfd"), Vec::new()));
    let dirs = vec![dri, dev];
    TopologyPlan { dirs, files }
}

} // verus!
