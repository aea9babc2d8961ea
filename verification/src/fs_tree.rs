//! The entries of a directory as the file tree lists them: hidden entries
//! left out unless asked for, directories first, then by name ignoring case.
use vstd::prelude::*;
use crate::error::{AppError, AppErrorView, AppResult};
use crate::platform::{hidden, is_compat_junction, is_hidden, COMPAT_JUNCTION};
use crate::text::{
    chars_of, chars_eq, lemma_lex_irreflexive, lemma_lex_total, lemma_lex_transitive, lex_less, lex_lt,
    lowercase, to_lowercase,
};

verus! {

/// An entry of a directory listing.
#[derive(Debug)]
pub struct DirEntryDto {
    pub name: String,
    pub path: String,
    pub is_dir: bool,
    pub is_hidden: bool,
    pub size: Option<u64>,
}

/// Whether a directory may be listed: it must exist and be a directory.
pub fn check_listable(path: &str, exists: bool, is_dir: bool) -> (r: AppResult<()>)
    ensures
        !exists ==> (r matches Err(e) && e@ == AppErrorView::NotFound(path@)),
        exists && !is_dir ==> (r matches Err(e) && e@ == AppErrorView::IllegalTarget(
            "not a directory: "@ + path@,
        )),
        exists && is_dir ==> r is Ok,
{
    crate::platform::ensure_exists(path, exists)?;
    if !is_dir {
        return Err(AppError::IllegalTarget(String::from_str("not a directory: ").concat(path)));
    }
    Ok(())
}

/// An entry is listed unless it is a compatibility junction, or hidden while
/// hidden entries are not shown.
pub open spec fn listed(name: Seq<char>, attributes: Option<u32>, show_hidden: bool) -> bool {
    !(attributes matches Some(a) && a & COMPAT_JUNCTION == COMPAT_JUNCTION) && (show_hidden
        || !hidden(name, attributes))
}

/// Hiding hidden entries only takes them away: an entry is listed without
/// hidden entries exactly when it is listed with them and is not hidden;
/// and where the platform gives no attributes, an entry is hidden exactly
/// when its name begins with `.`.
pub proof fn law_hidden_entries_filtered(name: Seq<char>, attributes: Option<u32>)
    ensures
        listed(name, attributes, false) == (listed(name, attributes, true) && !hidden(
            name,
            attributes,
        )),
        hidden(name, None) == (name.len() > 0 && name[0] == '.'),
{
}

/// The listing entry of the directory entry named `name` at `path` (a
/// directory or not, `len` bytes long, with Windows attributes where the
/// platform has them), or `None` where it is not listed. Directories carry
/// no size.
pub fn dir_entry(
    name: String,
    path: String,
    is_dir: bool,
    len: u64,
    attributes: Option<u32>,
    show_hidden: bool,
) -> (r: Option<DirEntryDto>)
    ensures
        r is Some <==> listed(name@, attributes, show_hidden),
        r matches Some(e) ==> e.name@ == name@ && e.path@ == path@ && e.is_dir == is_dir
            && e.is_hidden == hidden(name@, attributes) && e.size == (if is_dir {
            None
        } else {
            Some(len)
        }),
{
    if is_compat_junction(attributes) {
        return None;
    }
    let h = is_hidden(name.as_str(), attributes);
    if h && !show_hidden {
        return None;
    }
    Some(DirEntryDto { name, path, is_dir, is_hidden: h, size: if is_dir {
        None
    } else {
        Some(len)
    } })
}

/// `a` is listed before `b`: directories before other entries, then by the
/// lower-case names in code point order.
pub open spec fn entry_before(a: DirEntryDto, b: DirEntryDto) -> bool {
    (a.is_dir && !b.is_dir) || (a.is_dir == b.is_dir && lex_lt(lowercase(a.name@), lowercase(b.name@)))
}

/// `out` is `input` sorted for listing, stably: `idx` tells where each entry
/// of `out` stood in `input` (each position once); no entry precedes one
/// listed before it; and entries that tie keep their order.
pub open spec fn sorted_listing(input: Seq<DirEntryDto>, out: Seq<DirEntryDto>, idx: Seq<int>) -> bool {
    &&& idx.len() == input.len()
    &&& out.len() == input.len()
    &&& forall|k: int| 0 <= k < out.len() ==> 0 <= #[trigger] idx[k] < input.len() && out[k] == input[idx[k]]
    &&& forall|a: int, b: int| 0 <= a < b < out.len() ==> idx[a] != idx[b]
    &&& forall|a: int, b: int| 0 <= a < b < out.len() ==> !entry_before(out[b], out[a])
    &&& forall|a: int, b: int|
        0 <= a < b < out.len() && !entry_before(out[a], out[b]) ==> idx[a] < idx[b]
}

proof fn lemma_before_asym(a: DirEntryDto, b: DirEntryDto)
    ensures
        entry_before(a, b) ==> !entry_before(b, a),
{
    if entry_before(a, b) && entry_before(b, a) {
        lemma_lex_transitive(lowercase(a.name@), lowercase(b.name@), lowercase(a.name@));
        lemma_lex_irreflexive(lowercase(a.name@));
    }
}

/// Not after `p` and `p` not after `x`: then `q` is not before `x`.
proof fn lemma_not_before_chain(q: DirEntryDto, p: DirEntryDto, x: DirEntryDto)
    requires
        !entry_before(q, p),
        !entry_before(p, x),
    ensures
        !entry_before(q, x),
{
    let lq = lowercase(q.name@);
    let lp = lowercase(p.name@);
    let lx = lowercase(x.name@);
    lemma_lex_total(lp, lx);
    lemma_lex_total(lq, lp);
    if entry_before(q, x) {
        if q.is_dir == x.is_dir && lex_lt(lq, lx) && p.is_dir == x.is_dir {
            if lex_lt(lx, lp) {
                lemma_lex_transitive(lq, lx, lp);
            }
        }
    }
}

fn key_before(ad: bool, ak: &Vec<char>, bd: bool, bk: &Vec<char>) -> (r: bool)
    ensures
        r == ((ad && !bd) || (ad == bd && lex_lt(ak@, bk@))),
{
    (ad && !bd) || (ad == bd && lex_less(ak, bk))
}

/// The entries sorted for listing: directories first, then by name ignoring
/// case; entries that tie keep their order.
pub fn sort_entries(entries: Vec<DirEntryDto>) -> (r: Vec<DirEntryDto>)
    ensures
        exists|idx: Seq<int>| sorted_listing(entries@, r@, idx),
{
    let ghost input = entries@;
    let n = entries.len();
    let mut rest = entries;
    let mut out: Vec<DirEntryDto> = Vec::new();
    let mut keys: Vec<(bool, Vec<char>)> = Vec::new();
    let ghost mut idx: Seq<int> = Seq::empty();
    while rest.len() > 0
        invariant
            n == input.len(),
            rest@ == input.take(rest@.len() as int),
            rest@.len() <= n,
            out@.len() == n - rest@.len(),
            idx.len() == out@.len(),
            keys@.len() == out@.len(),
            forall|k: int| 0 <= k < out@.len() ==> (#[trigger] keys@[k]).0 == out@[k].is_dir
                && keys@[k].1@ == lowercase(out@[k].name@),
            forall|k: int|
                0 <= k < out@.len() ==> rest@.len() <= #[trigger] idx[k] < n && out@[k] == input[idx[k]],
            forall|a: int, b: int| 0 <= a < b < out@.len() ==> idx[a] != idx[b],
            forall|a: int, b: int| 0 <= a < b < out@.len() ==> !entry_before(out@[b], out@[a]),
            forall|a: int, b: int|
                0 <= a < b < out@.len() && !entry_before(out@[a], out@[b]) ==> idx[a] < idx[b],
        decreases rest@.len(),
    {
        let i = rest.len() - 1;
        let x = rest.pop().unwrap();
        assert(x == input[i as int]);
        assert(rest@ =~= input.take(i as int));
        let xk = chars_of(to_lowercase(x.name.as_str()).as_str());
        let xd = x.is_dir;
        let mut p: usize = 0;
        while p < out.len() && key_before(keys[p].0, &keys[p].1, xd, &xk)
            invariant
                p <= out@.len(),
                keys@.len() == out@.len(),
                forall|k: int| 0 <= k < out@.len() ==> (#[trigger] keys@[k]).0 == out@[k].is_dir
                    && keys@[k].1@ == lowercase(out@[k].name@),
                xd == x.is_dir,
                xk@ == lowercase(x.name@),
                forall|q: int| 0 <= q < p ==> entry_before(#[trigger] out@[q], x),
            decreases out@.len() - p,
        {
            p = p + 1;
        }
        proof {
            if p < out@.len() {
                assert(!entry_before(out@[p as int], x));
            }
        }
        let ghost old_out = out@;
        let ghost old_idx = idx;
        out.insert(p, x);
        keys.insert(p, (xd, xk));
        proof {
            idx = old_idx.insert(p as int, i as int);
            assert forall|k: int| 0 <= k < out@.len() implies (#[trigger] keys@[k]).0 == out@[k].is_dir
                && keys@[k].1@ == lowercase(out@[k].name@) by {
                if k > p {
                    assert(out@[k] == old_out[k - 1]);
                }

            }
            assert forall|k: int| 0 <= k < out@.len() implies i <= #[trigger] idx[k] < n && out@[k]
                == input[idx[k]] by {
                if k < p {
                    assert(idx[k] == old_idx[k]);
                } else if k == p {
                } else {
                    assert(idx[k] == old_idx[k - 1]);
                    assert(out@[k] == old_out[k - 1]);
                }
            }
            assert forall|a: int, b: int| 0 <= a < b < out@.len() implies idx[a] != idx[b] by {
                if a == p as int || b == p as int {
                } else {
                    let a0 = if a < p { a } else { a - 1 };
                    let b0 = if b < p { b } else { b - 1 };
                    assert(idx[a] == old_idx[a0]);
                    assert(idx[b] == old_idx[b0]);
                }
            }
            assert forall|a: int, b: int| 0 <= a < b < out@.len() implies !entry_before(
                out@[b],
                out@[a],
            ) by {
                let a0 = if a < p { a } else { a - 1 };
                let b0 = if b < p { b } else { b - 1 };
                if a == p as int {
                    assert(out@[b] == old_out[b0]);
                    assert(p as int <= b0);
                    if b0 > p as int {
                        assert(!entry_before(old_out[b0], old_out[p as int]));
                    } else {
                        lemma_lex_irreflexive(lowercase(old_out[p as int].name@));
                    }
                    lemma_not_before_chain(old_out[b0], old_out[p as int], x);
                } else if b == p as int {
                    assert(out@[a] == old_out[a]);
                    assert(entry_before(old_out[a], x));
                    lemma_before_asym(old_out[a], x);
                } else {
                    assert(out@[a] == old_out[a0]);
                    assert(out@[b] == old_out[b0]);
                }
            }
            assert forall|a: int, b: int|
                0 <= a < b < out@.len() && !entry_before(out@[a], out@[b]) implies idx[a] < idx[b] by {
                let a0 = if a < p { a } else { a - 1 };
                let b0 = if b < p { b } else { b - 1 };
                if a == p as int {
                    assert(idx[b] == old_idx[b0]);
                } else if b == p as int {
                    assert(out@[a] == old_out[a]);
                    assert(entry_before(old_out[a], x));
                } else {
                    assert(out@[a] == old_out[a0]);
                    assert(out@[b] == old_out[b0]);
                    assert(idx[a] == old_idx[a0]);
                    assert(idx[b] == old_idx[b0]);
                }
            }
        }
    }
    assert(sorted_listing(input, out@, idx));
    out
}

} // verus!
