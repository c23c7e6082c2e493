//! The compute side of the shell: splitting a command line into tokens
//! and rendering the directory stack as a path. Reading keys, running
//! commands and printing stay outside the crate; they hand byte strings
//! in and take byte strings back.

use vstd::prelude::*;

use crate::ramfs::{Fs, NodeModel};

verus! {

/// The path separator.
pub const PATH_SEP: u8 = 0x2f;

/// ASCII whitespace, as the command splitter sees it.
pub open spec fn is_space(b: u8) -> bool {
    b == 0x20 || b == 0x09 || b == 0x0a || b == 0x0d
}

/// Exec mirror of `is_space`.
pub fn byte_is_space(b: u8) -> (r: bool)
    ensures
        r == is_space(b),
{
    b == 0x20 || b == 0x09 || b == 0x0a || b == 0x0d
}

/// The next whitespace-separated token at or after `start`: its bounds
/// if there is one. The token is the first maximal non-space run.
pub fn next_token(line: &[u8], start: usize) -> (r: Option<(usize, usize)>)
    requires
        start <= line@.len(),
    ensures
        r matches Some(t) ==> ({
            &&& start <= t.0 < t.1 <= line@.len()
            &&& forall|j: int| start <= j < t.0 ==> is_space(#[trigger] line@[j])
            &&& forall|j: int| t.0 <= j < t.1 ==> !is_space(#[trigger] line@[j])
            &&& (t.1 == line@.len() || is_space(line@[t.1 as int]))
        }),
        r is None ==> forall|j: int| start <= j < line@.len() ==> is_space(#[trigger] line@[j]),
{
    let n = line.len();
    let mut i: usize = start;
    while i < n
        invariant_except_break
            start <= i <= n,
            n == line@.len(),
            forall|j: int| start <= j < i ==> is_space(#[trigger] line@[j]),
        ensures
            start <= i <= n,
            n == line@.len(),
            forall|j: int| start <= j < i ==> is_space(#[trigger] line@[j]),
            i < n ==> !is_space(line@[i as int]),
        decreases n - i,
    {
        if !byte_is_space(*vstd::slice::slice_index_get(line, i)) {
            break ;
        }
        i = i + 1;
    }
    if i == n {
        return None;
    }
    let tok_start = i;
    let mut j: usize = i + 1;
    while j < n
        invariant_except_break
            tok_start < j <= n,
            n == line@.len(),
            forall|k: int| tok_start <= k < j ==> !is_space(#[trigger] line@[k]),
        ensures
            tok_start < j <= n,
            n == line@.len(),
            forall|k: int| tok_start <= k < j ==> !is_space(#[trigger] line@[k]),
            j < n ==> is_space(line@[j as int]),
        decreases n - j,
    {
        if byte_is_space(*vstd::slice::slice_index_get(line, j)) {
            break ;
        }
        j = j + 1;
    }
    Some((tok_start, j))
}

/// The placeholder shown when a stacked node has no name in its parent.
pub open spec fn unknown_marker() -> Seq<u8> {
    seq![0x3cu8, 0x75, 0x6e, 0x6b, 0x6e, 0x6f, 0x77, 0x6e, 0x3e]
}

/// Exec mirror of `unknown_marker`: the bytes of `<unknown>`.
pub fn unknown_marker_bytes() -> (v: Vec<u8>)
    ensures
        v@ == unknown_marker(),
{
    let mut v: Vec<u8> = Vec::new();
    v.push(0x3c);
    v.push(0x75);
    v.push(0x6e);
    v.push(0x6b);
    v.push(0x6e);
    v.push(0x6f);
    v.push(0x77);
    v.push(0x6e);
    v.push(0x3e);
    proof {
        assert(v@ =~= unknown_marker());
    }
    v
}

/// The placeholder shown when a stacked parent is not a directory.
pub open spec fn not_a_directory_marker() -> Seq<u8> {
    seq![0x3cu8, 0x6e, 0x6f, 0x74, 0x20, 0x61, 0x20, 0x64, 0x69, 0x72, 0x65, 0x63, 0x74, 0x6f,
        0x72, 0x79, 0x3e]
}

/// Exec mirror of `not_a_directory_marker`: the bytes of
/// `<not a directory>`.
pub fn not_a_directory_marker_bytes() -> (v: Vec<u8>)
    ensures
        v@ == not_a_directory_marker(),
{
    let mut v: Vec<u8> = Vec::new();
    v.push(0x3c);
    v.push(0x6e);
    v.push(0x6f);
    v.push(0x74);
    v.push(0x20);
    v.push(0x61);
    v.push(0x20);
    v.push(0x64);
    v.push(0x69);
    v.push(0x72);
    v.push(0x65);
    v.push(0x63);
    v.push(0x74);
    v.push(0x6f);
    v.push(0x72);
    v.push(0x79);
    v.push(0x3e);
    proof {
        assert(v@ =~= not_a_directory_marker());
    }
    v
}

/// One path component is in order when the parent on the stack is a
/// directory that links the child on the stack under this name, or when
/// it is the fixed placeholder because no such name or no such
/// directory exists.
pub open spec fn component_ok(
    fs: Seq<NodeModel>,
    stack: Seq<usize>,
    i: int,
    comp: Seq<u8>,
) -> bool {
    match fs[stack[i - 1] as int] {
        NodeModel::Directory { entries } => {
            ||| (entries.contains_key(comp) && entries[comp] == stack[i] as int)
            ||| (comp == unknown_marker() && forall|n: Seq<u8>|
                entries.contains_key(n) ==> entries[n] != stack[i] as int)
        },
        NodeModel::File { .. } => comp == not_a_directory_marker(),
    }
}

/// Components joined: a separator before each one; no component at all
/// is the bare separator.
pub open spec fn join_path(comps: Seq<Seq<u8>>) -> Seq<u8>
    decreases comps.len(),
{
    if comps.len() == 0 {
        seq![PATH_SEP]
    } else if comps.len() == 1 {
        seq![PATH_SEP] + comps[0]
    } else {
        join_path(comps.drop_last()) + seq![PATH_SEP] + comps.last()
    }
}

/// The path is some join of per-step components, each in order.
pub open spec fn path_ok(
    fs: Seq<NodeModel>,
    stack: Seq<usize>,
    comps: Seq<Seq<u8>>,
    path: Seq<u8>,
) -> bool {
    &&& comps.len() == (if stack.len() == 0 {
        0
    } else {
        stack.len() - 1
    })
    &&& forall|i: int| 1 <= i < stack.len() ==> component_ok(fs, stack, i, #[trigger] comps[i - 1])
    &&& path == join_path(comps)
}

/// The contents of a list of byte strings, as a sequence of sequences.
pub open spec fn byte_rows(vs: Seq<Vec<u8>>) -> Seq<Seq<u8>> {
    Seq::new(vs.len(), |i: int| vs[i]@)
}

/// Renders the directory stack as a path: one component per step beyond
/// the root, each the name under which the parent links the next node
/// (or a placeholder), joined by separators; an empty or one-deep stack
/// reads as the bare separator.
pub fn get_path(fs: &Fs, dir_stack: &Vec<usize>) -> (path: Vec<u8>)
    requires
        fs.wf(),
        forall|i: int| 0 <= i < dir_stack@.len() ==> (#[trigger] dir_stack@[i]) < fs@.len(),
    ensures
        exists|comps: Seq<Seq<u8>>| path_ok(fs@, dir_stack@, comps, path@),
{
    let len = dir_stack.len();
    let mut comps: Vec<Vec<u8>> = Vec::new();
    if len > 0 {
        let mut i: usize = 1;
        while i < len
            invariant
                1 <= i <= len,
                len == dir_stack@.len(),
                fs.wf(),
                forall|k: int| 0 <= k < dir_stack@.len() ==> (#[trigger] dir_stack@[k]) < fs@.len(),
                comps@.len() == i - 1,
                forall|k: int|
                    1 <= k < i ==> component_ok(
                        fs@,
                        dir_stack@,
                        k,
                        #[trigger] byte_rows(comps@)[k - 1],
                    ),
            decreases len - i,
        {
            let parent = dir_stack[i - 1];
            let child = dir_stack[i];
            let comp: Vec<u8> = if !fs.is_dir(parent) {
                not_a_directory_marker_bytes()
            } else {
                match fs.name_of(parent, child) {
                    Some(nm) => nm,
                    None => unknown_marker_bytes(),
                }
            };
            proof {
                assert(component_ok(fs@, dir_stack@, i as int, comp@));
            }
            let ghost comps0 = comps@;
            comps.push(comp);
            proof {
                assert forall|k2: int| 1 <= k2 < i + 1 implies component_ok(
                    fs@,
                    dir_stack@,
                    k2,
                    #[trigger] byte_rows(comps@)[k2 - 1],
                ) by {
                    if k2 < i {
                        assert(byte_rows(comps@)[k2 - 1] == byte_rows(comps0)[k2 - 1]);
                    } else {
                        assert(byte_rows(comps@)[k2 - 1] == comp@);
                    }
                }
            }
            i = i + 1;
        }
    }
    let mut path: Vec<u8> = Vec::new();
    let m = comps.len();
    if m == 0 {
        path.push(PATH_SEP);
        proof {
            assert(path@ =~= join_path(byte_rows(comps@)));
        }
    } else {
        let mut k: usize = 0;
        while k < m
            invariant
                k <= m,
                m == comps@.len(),
                k == 0 ==> path@ == Seq::<u8>::empty(),
                k >= 1 ==> path@ == join_path(byte_rows(comps@).take(k as int)),
            decreases m - k,
        {
            let ghost before = path@;
            path.push(PATH_SEP);
            let comp = &comps[k];
            let cn = comp.len();
            let mut c: usize = 0;
            while c < cn
                invariant
                    c <= cn,
                    cn == comp@.len(),
                    comp == &comps@[k as int],
                    k < comps@.len(),
                    path@ == before + seq![PATH_SEP] + comp@.take(c as int),
                decreases cn - c,
            {
                path.push(comp[c]);
                proof {
                    assert(path@ =~= before + seq![PATH_SEP] + comp@.take(c + 1));
                }
                c = c + 1;
            }
            proof {
                let rows = byte_rows(comps@);
                assert(comp@.take(cn as int) =~= rows[k as int]);
                assert(path@ == before + seq![PATH_SEP] + rows[k as int]);
                if k == 0 {
                    assert(rows.take(1)[0] == rows[0]);
                    assert(path@ =~= join_path(rows.take(1)));
                } else {
                    assert(rows.take(k as int + 1).drop_last() =~= rows.take(k as int));
                    assert(rows.take(k as int + 1).last() == rows[k as int]);
                    let kk = k as int;
                    assert(path@ =~= join_path(rows.take(kk)) + seq![PATH_SEP] + rows[kk]);
                }
            }
            k = k + 1;
        }
        proof {
            assert(byte_rows(comps@).take(m as int) =~= byte_rows(comps@));
        }
    }
    proof {
        let rows = byte_rows(comps@);
        assert(path_ok(fs@, dir_stack@, rows, path@));
    }
    path
}

} // verus!
