//! The checks that decide whether a rename, copy, move or delete may start,
//! and the steps that carry it out.
use vstd::prelude::*;
use crate::error::{AppError, AppErrorView, AppResult, IoErrorKind, io_error_of};
use crate::paths::{
    joined, lemma_portable_parts, path_eq, path_file_name, path_join, path_parent, path_starts_with,
    plain_base, portable_below, portable_name, portable_parent, portable_path, relative_tail,
};
use crate::text::{chars_of, opt_chars, str_eq};

verus! {

/// What to do when the target of a copy or move exists.
#[derive(Debug, Clone, Copy, PartialEq, Eq, Structural)]
pub enum ConflictStrategy {
    /// Refuse with a conflict.
    Refuse,
    /// Merge the source directory into the target directory.
    Merge,
    /// Remove the target first.
    Replace,
}

/// The strategy that the user interface's word names: none, `merge` or
/// `replace`; any other word is an illegal target.
pub open spec fn strategy_of(s: Option<Seq<char>>) -> Result<ConflictStrategy, AppErrorView> {
    match s {
        None => Ok(ConflictStrategy::Refuse),
        Some(w) => if w == "merge"@ {
            Ok(ConflictStrategy::Merge)
        } else if w == "replace"@ {
            Ok(ConflictStrategy::Replace)
        } else {
            Err(AppErrorView::IllegalTarget("unknown conflict strategy: "@ + w))
        },
    }
}

/// A result read by its view.
pub open spec fn res_view<T>(r: AppResult<T>) -> Result<T, AppErrorView> {
    match r {
        Ok(v) => Ok(v),
        Err(e) => Err(e@),
    }
}

/// The conflict strategy that `s` names.
pub fn parse_strategy(s: Option<String>) -> (r: AppResult<ConflictStrategy>)
    ensures
        res_view(r) == strategy_of(opt_chars(s)),
{
    match s {
        None => Ok(ConflictStrategy::Refuse),
        Some(w) => {
            if str_eq(w.as_str(), "merge") {
                Ok(ConflictStrategy::Merge)
            } else if str_eq(w.as_str(), "replace") {
                Ok(ConflictStrategy::Replace)
            } else {
                Err(AppError::IllegalTarget(String::from_str("unknown conflict strategy: ").concat(w.as_str())))
            }
        },
    }
}

/// The error of a path without a parent.
pub open spec fn no_parent(p: Seq<char>) -> AppErrorView {
    AppErrorView::IllegalTarget("no parent for: "@ + p)
}

/// The parent of `p` as `Path::parent` gave it, or the error that it has none.
pub fn parent_result(p: &str, parent: Option<String>) -> (r: AppResult<String>)
    ensures
        match r {
            Ok(q) => parent is Some && q@ == parent->Some_0@,
            Err(e) => parent is None && e@ == no_parent(p@),
        },
{
    match parent {
        Some(q) => Ok(q),
        None => Err(AppError::IllegalTarget(String::from_str("no parent for: ").concat(p))),
    }
}

/// The parent directory of `p`, or an illegal target where it has none.
///
/// The parent comes from `Path::parent`: the empty path has none, and a
/// portable path's parent is `portable_parent`; of other paths, whose
/// parent depends on the platform, only the error is stated.
pub fn parent_or_err(p: &str) -> (r: AppResult<String>)
    ensures
        r matches Err(e) ==> e@ == no_parent(p@),
        p@.len() == 0 ==> r is Err,
        portable_path(p@) ==> match portable_parent(p@) {
            Some(q) => r matches Ok(x) && x@ == q,
            None => r is Err,
        },
{
    parent_result(p, path_parent(p))
}

/// The error of a path without a file name.
pub open spec fn no_file_name(p: Seq<char>) -> AppErrorView {
    AppErrorView::IllegalTarget("no file name: "@ + p)
}

/// The target in `dst_dir` of moving or copying `src`: `dst_dir` joined with
/// the file name of `src`, or an illegal target where `src` has none.
///
/// The file name and the joined path come from `std::path`: for a portable
/// `src` and a `dst_dir` without drive prefix the target is the final name
/// of `src` appended to `dst_dir` (see `joined`); nothing more is stated of
/// other paths, which split differently from one platform to another.
pub fn join_dst(dst_dir: &str, src: &str) -> (r: AppResult<String>)
    ensures
        r matches Err(e) ==> e@ == no_file_name(src@),
        portable_path(src@) && portable_name(src@) is None ==> r is Err,
        portable_path(src@) && portable_name(src@) is Some && plain_base(dst_dir@) ==> (r matches Ok(
            q,
        ) && joined(dst_dir@, portable_name(src@)->Some_0, q@)),
{
    proof {
        if portable_path(src@) && src@ != seq!['/'] {
            lemma_portable_parts(src@);
        }
    }
    match path_file_name(src) {
        Some(name) => Ok(path_join(dst_dir, name.as_str())),
        None => Err(AppError::IllegalTarget(String::from_str("no file name: ").concat(src))),
    }
}

/// Whether the directory `dst` (canonical form) is `src` (canonical form)
/// or lies inside it, component by component.
///
/// The comparison comes from `std::path`: a path is always itself, and
/// between portable paths the answer is exact; of other paths, which split
/// differently from one platform to another, nothing more is stated.
pub fn is_self_or_descendant(src_canonical: &str, dst_canonical: &str) -> (r: bool)
    ensures
        src_canonical@ == dst_canonical@ ==> r,
        portable_path(src_canonical@) && portable_path(dst_canonical@) ==> r == (dst_canonical@
            == src_canonical@ || portable_below(dst_canonical@, src_canonical@)),
{
    path_eq(dst_canonical, src_canonical) || path_starts_with(dst_canonical, src_canonical)
}

/// The error of moving or copying a directory into itself or below it.
pub open spec fn into_itself() -> AppErrorView {
    AppErrorView::IllegalTarget("cannot move/copy a directory into itself or its descendant"@)
}

/// Whether a new name is refused: empty, or holding `/` or `\`.
pub open spec fn bad_name(name: Seq<char>) -> bool {
    name.len() == 0 || name.contains('/') || name.contains('\\')
}

/// Refuses an empty new name or one that holds a path separator.
pub fn validate_new_name(new_name: &str) -> (r: AppResult<()>)
    ensures
        bad_name(new_name@) ==> (r matches Err(e) && e@ == AppErrorView::IllegalTarget(
            "invalid name: "@ + new_name@,
        )),
        !bad_name(new_name@) ==> r is Ok,
{
    let c = chars_of(new_name);
    let mut bad = c.len() == 0;
    let mut i: usize = 0;
    while i < c.len()
        invariant
            i <= c.len(),
            bad == (c@.len() == 0 || exists|k: int| 0 <= k < i && (c@[k] == '/' || c@[k] == '\\')),
        decreases c.len() - i,
    {
        if c[i] == '/' || c[i] == '\\' {
            bad = true;
        }
        i = i + 1;
    }
    proof {
        assert(new_name@.contains('/') == exists|k: int| 0 <= k < c@.len() && c@[k] == '/');
        assert(new_name@.contains('\\') == exists|k: int| 0 <= k < c@.len() && c@[k] == '\\');
    }
    if bad {
        Err(AppError::IllegalTarget(String::from_str("invalid name: ").concat(new_name)))
    } else {
        Ok(())
    }
}

/// The place that `path` is renamed to: `new_name` beside it.
///
/// The parent and the joined path come from `std::path`: for a portable
/// `path` and a relative `new_name` without drive prefix, the target is
/// `new_name` appended to the parent (see `joined`); nothing more is stated
/// of other paths, which split differently from one platform to another.
pub fn rename_target(path: &str, new_name: &str) -> (r: AppResult<String>)
    ensures
        r matches Err(e) ==> e@ == no_parent(path@),
        path@.len() == 0 ==> r is Err,
        portable_path(path@) && portable_parent(path@) is None ==> r is Err,
        portable_path(path@) && portable_parent(path@) is Some && relative_tail(new_name@) ==> (r matches Ok(
            q,
        ) && joined(portable_parent(path@)->Some_0, new_name@, q@)),
{
    proof {
        if portable_path(path@) && path@ != seq!['/'] {
            lemma_portable_parts(path@);
        }
    }
    let parent = parent_or_err(path)?;
    Ok(path_join(parent.as_str(), new_name))
}

/// A rename that may start.
pub struct RenamePlan {
    pub from: String,
    pub to: String,
    pub description: String,
}

/// The description of renaming the entry with file name `file_name` (or,
/// without one, its whole path) to `new_name`.
pub open spec fn rename_text(path: Seq<char>, file_name: Option<Seq<char>>, new_name: Seq<char>) -> Seq<
    char,
> {
    "重命名 "@ + match file_name {
        Some(n) => n,
        None => path,
    } + " 到 "@ + new_name
}

/// Whether the rename of `path` to `new_name` may start, given whether
/// `path` exists, its target (see `rename_target`), whether the target
/// exists and the file name of `path`: the name is checked first, then that
/// `path` exists, that it has a parent, and that the target is free.
pub open spec fn rename_check(
    path: Seq<char>,
    new_name: Seq<char>,
    path_exists: bool,
    target: Result<Seq<char>, AppErrorView>,
    target_exists: bool,
    file_name: Option<Seq<char>>,
) -> Result<(Seq<char>, Seq<char>), AppErrorView> {
    if bad_name(new_name) {
        Err(AppErrorView::IllegalTarget("invalid name: "@ + new_name))
    } else if !path_exists {
        Err(AppErrorView::NotFound(path))
    } else {
        match target {
            Err(e) => Err(e),
            Ok(t) => if target_exists {
                Err(AppErrorView::AlreadyExists(t))
            } else {
                Ok((t, rename_text(path, file_name, new_name)))
            },
        }
    }
}

/// A string result read by its characters.
pub open spec fn str_res(r: AppResult<String>) -> Result<Seq<char>, AppErrorView> {
    match r {
        Ok(s) => Ok(s@),
        Err(e) => Err(e@),
    }
}

/// Whether the rename may start (see `rename_check`), and what it does.
pub fn check_rename(
    path: &str,
    new_name: &str,
    path_exists: bool,
    target: AppResult<String>,
    target_exists: bool,
    file_name: Option<String>,
) -> (r: AppResult<RenamePlan>)
    ensures
        match r {
            Ok(p) => p.from@ == path@ && rename_check(
                path@,
                new_name@,
                path_exists,
                str_res(target),
                target_exists,
                opt_chars(file_name),
            ) == Ok::<(Seq<char>, Seq<char>), AppErrorView>((p.to@, p.description@)),
            Err(e) => rename_check(
                path@,
                new_name@,
                path_exists,
                str_res(target),
                target_exists,
                opt_chars(file_name),
            ) == Err::<(Seq<char>, Seq<char>), AppErrorView>(e@),
        },
{
    validate_new_name(new_name)?;
    if !path_exists {
        return Err(AppError::NotFound(String::from_str(path)));
    }
    let to = target?;
    if target_exists {
        return Err(AppError::AlreadyExists(to));
    }
    let shown = match file_name {
        Some(n) => n,
        None => String::from_str(path),
    };
    let description = String::from_str("重命名 ").concat(shown.as_str()).concat(" 到 ").concat(new_name);
    Ok(RenamePlan { from: String::from_str(path), to, description })
}

/// Copy or move.
#[derive(Debug, Clone, Copy, PartialEq, Eq, Structural)]
pub enum TransferKind {
    Copy,
    Move,
}

/// What the file system says about the places of a copy or move.
#[derive(Debug, Clone, Copy, PartialEq, Eq, Structural)]
pub struct TransferFacts {
    pub src_exists: bool,
    pub dst_dir_exists: bool,
    pub dst_dir_is_dir: bool,
    pub src_is_dir: bool,
    /// The destination directory is the source or lies inside it (see
    /// `is_self_or_descendant`, on the canonical forms).
    pub inside_source: bool,
    pub target_exists: bool,
    pub target_is_dir: bool,
}

/// A copy or move that may start.
pub struct TransferPlan {
    pub target: String,
    pub strategy: ConflictStrategy,
    pub description: String,
}

/// The description of copying or moving `src` into `dst_dir`.
pub open spec fn transfer_text(kind: TransferKind, src: Seq<char>, dst_dir: Seq<char>) -> Seq<char> {
    (if kind == TransferKind::Copy {
        "复制 "@
    } else {
        "移动 "@
    }) + src + " 到 "@ + dst_dir
}

/// Whether a copy or move of `src` into `dst_dir` may start: the source and
/// the destination must exist, the destination be a directory, a directory
/// not go into itself or below it, the source have a file name (`target`),
/// the strategy be known; an existing target needs a strategy, and merging
/// needs two directories.
pub open spec fn transfer_check(
    kind: TransferKind,
    src: Seq<char>,
    dst_dir: Seq<char>,
    on_conflict: Option<Seq<char>>,
    target: Result<Seq<char>, AppErrorView>,
    f: TransferFacts,
) -> Result<(Seq<char>, ConflictStrategy, Seq<char>), AppErrorView> {
    if !f.src_exists {
        Err(AppErrorView::NotFound(src))
    } else if !f.dst_dir_exists {
        Err(AppErrorView::NotFound(dst_dir))
    } else if !f.dst_dir_is_dir {
        Err(AppErrorView::IllegalTarget("not a directory: "@ + dst_dir))
    } else if f.src_is_dir && f.inside_source {
        Err(into_itself())
    } else {
        match target {
            Err(e) => Err(e),
            Ok(t) => match strategy_of(on_conflict) {
                Err(e) => Err(e),
                Ok(st) => if f.target_exists && st == ConflictStrategy::Refuse {
                    Err(AppErrorView::Conflict { path: t, is_dir: f.target_is_dir })
                } else if st == ConflictStrategy::Merge && (!f.src_is_dir || !f.target_is_dir) {
                    Err(AppErrorView::IllegalTarget("合并仅适用于源与目标都为目录的场景"@))
                } else {
                    Ok((t, st, transfer_text(kind, src, dst_dir)))
                },
            },
        }
    }
}

/// Whether the copy or move may start (see `transfer_check`), and what it does.
pub fn check_transfer(
    kind: TransferKind,
    src: &str,
    dst_dir: &str,
    on_conflict: Option<String>,
    target: AppResult<String>,
    f: TransferFacts,
) -> (r: AppResult<TransferPlan>)
    ensures
        match r {
            Ok(p) => transfer_check(kind, src@, dst_dir@, opt_chars(on_conflict), str_res(target), f)
                == Ok::<(Seq<char>, ConflictStrategy, Seq<char>), AppErrorView>(
                (p.target@, p.strategy, p.description@),
            ),
            Err(e) => transfer_check(kind, src@, dst_dir@, opt_chars(on_conflict), str_res(target), f)
                == Err::<(Seq<char>, ConflictStrategy, Seq<char>), AppErrorView>(e@),
        },
{
    if !f.src_exists {
        return Err(AppError::NotFound(String::from_str(src)));
    }
    if !f.dst_dir_exists {
        return Err(AppError::NotFound(String::from_str(dst_dir)));
    }
    if !f.dst_dir_is_dir {
        return Err(AppError::IllegalTarget(String::from_str("not a directory: ").concat(dst_dir)));
    }
    if f.src_is_dir && f.inside_source {
        return Err(
            AppError::IllegalTarget(
                String::from_str("cannot move/copy a directory into itself or its descendant"),
            ),
        );
    }
    let t = target?;
    let st = parse_strategy(on_conflict)?;
    if f.target_exists && st == ConflictStrategy::Refuse {
        return Err(AppError::Conflict { path: t, is_dir: f.target_is_dir });
    }
    if st == ConflictStrategy::Merge && (!f.src_is_dir || !f.target_is_dir) {
        return Err(AppError::IllegalTarget(String::from_str("合并仅适用于源与目标都为目录的场景")));
    }
    let head = match kind {
        TransferKind::Copy => String::from_str("复制 "),
        TransferKind::Move => String::from_str("移动 "),
    };
    let description = head.concat(src).concat(" 到 ").concat(dst_dir);
    Ok(TransferPlan { target: t, strategy: st, description })
}

/// A directory is never copied or moved into itself or below it: whatever
/// else holds, such a request is refused.
pub proof fn law_no_transfer_into_itself(
    kind: TransferKind,
    src: Seq<char>,
    dst_dir: Seq<char>,
    on_conflict: Option<Seq<char>>,
    target: Result<Seq<char>, AppErrorView>,
    f: TransferFacts,
)
    requires
        f.src_is_dir,
        f.inside_source,
    ensures
        transfer_check(kind, src, dst_dir, on_conflict, target, f) is Err,
        f.src_exists && f.dst_dir_exists && f.dst_dir_is_dir ==> transfer_check(
            kind,
            src,
            dst_dir,
            on_conflict,
            target,
            f,
        ) == Err::<(Seq<char>, ConflictStrategy, Seq<char>), AppErrorView>(into_itself()),
{
}

/// An existing target is never overwritten unasked: without a strategy a
/// request whose target exists is refused (with a conflict, once the other
/// checks pass), and a merge is only ever planned between two directories.
pub proof fn law_conflicts_need_a_strategy(
    kind: TransferKind,
    src: Seq<char>,
    dst_dir: Seq<char>,
    on_conflict: Option<Seq<char>>,
    target: Result<Seq<char>, AppErrorView>,
    f: TransferFacts,
)
    ensures
        f.target_exists && on_conflict is None ==> transfer_check(
            kind,
            src,
            dst_dir,
            on_conflict,
            target,
            f,
        ) is Err,
        transfer_check(kind, src, dst_dir, on_conflict, target, f) matches Ok(p) && p.1
            == ConflictStrategy::Merge ==> f.src_is_dir && f.target_is_dir,
{
}

/// Choosing to replace is never answered with a conflict, for a copy as for
/// a move: an existing target is what the choice is about. Once the other
/// checks pass, the plan replaces the target.
pub proof fn law_replace_is_never_a_conflict(
    kind: TransferKind,
    src: Seq<char>,
    dst_dir: Seq<char>,
    target: Result<Seq<char>, AppErrorView>,
    f: TransferFacts,
)
    ensures
        target is Ok ==> !(transfer_check(kind, src, dst_dir, Some("replace"@), target, f) matches Err(
            AppErrorView::Conflict { .. },
        )),
        f.src_exists && f.dst_dir_exists && f.dst_dir_is_dir && !(f.src_is_dir && f.inside_source)
            && target is Ok ==> (transfer_check(kind, src, dst_dir, Some("replace"@), target, f)
            matches Ok(p) && p.0 == target->Ok_0 && p.1 == ConflictStrategy::Replace),
{
    reveal_strlit("replace");
    reveal_strlit("merge");
    assert("replace"@ != "merge"@) by {
        assert("replace"@[0] != "merge"@[0]);
    }
}

/// Without a strategy, an existing target that passes the other checks is
/// answered with a conflict naming that target and whether it is a
/// directory, so the user can choose; a free target needs no strategy.
pub proof fn law_conflict_names_the_target(
    kind: TransferKind,
    src: Seq<char>,
    dst_dir: Seq<char>,
    t: Seq<char>,
    f: TransferFacts,
)
    requires
        f.src_exists,
        f.dst_dir_exists,
        f.dst_dir_is_dir,
        !(f.src_is_dir && f.inside_source),
    ensures
        f.target_exists ==> transfer_check(kind, src, dst_dir, None, Ok(t), f) == Err::<
            (Seq<char>, ConflictStrategy, Seq<char>),
            AppErrorView,
        >(AppErrorView::Conflict { path: t, is_dir: f.target_is_dir }),
        !f.target_exists ==> (transfer_check(kind, src, dst_dir, None, Ok(t), f) matches Ok(p) && p.0
            == t && p.1 == ConflictStrategy::Refuse),
{
}

/// Copying and moving are checked alike: the same request succeeds or fails
/// the same way whether it copies or moves, with the same target and
/// strategy; only the description differs.
pub proof fn law_copy_and_move_checked_alike(
    src: Seq<char>,
    dst_dir: Seq<char>,
    on_conflict: Option<Seq<char>>,
    target: Result<Seq<char>, AppErrorView>,
    f: TransferFacts,
)
    ensures
        ({
            let c = transfer_check(TransferKind::Copy, src, dst_dir, on_conflict, target, f);
            let m = transfer_check(TransferKind::Move, src, dst_dir, on_conflict, target, f);
            &&& (c is Ok <==> m is Ok)
            &&& (c matches Err(e) ==> m == Err::<(Seq<char>, ConflictStrategy, Seq<char>), AppErrorView>(
                e,
            ))
            &&& (c matches Ok(pc) ==> (m matches Ok(pm) && pc.0 == pm.0 && pc.1 == pm.1))
        }),
{
}

/// A step of carrying out a copy or move.
#[derive(Debug, Clone, Copy, PartialEq, Eq, Structural)]
pub enum TransferStep {
    /// Remove the target if it exists.
    RemoveTargetIfExists,
    /// Copy the source (a file or a whole tree) to the target.
    CopyTree,
    /// Merge the source directory into the target directory (see `merge_entry`).
    MergeTree,
    /// Rename the source to the target; where that fails because the two lie
    /// on different devices, copy the tree and then remove the source; any
    /// other failure ends the move with its error (see `after_move_rename`).
    RenameOrCopyAndRemove,
    /// Remove the source.
    RemoveSource,
}

/// The steps of a copy or move with the given strategy.
pub open spec fn steps_of(kind: TransferKind, st: ConflictStrategy) -> Seq<TransferStep> {
    match (kind, st) {
        (TransferKind::Copy, ConflictStrategy::Refuse) => seq![TransferStep::CopyTree],
        (TransferKind::Copy, ConflictStrategy::Replace) => seq![
            TransferStep::RemoveTargetIfExists,
            TransferStep::CopyTree,
        ],
        (TransferKind::Copy, ConflictStrategy::Merge) => seq![TransferStep::MergeTree],
        (TransferKind::Move, ConflictStrategy::Refuse) => seq![TransferStep::RenameOrCopyAndRemove],
        (TransferKind::Move, ConflictStrategy::Replace) => seq![
            TransferStep::RemoveTargetIfExists,
            TransferStep::RenameOrCopyAndRemove,
        ],
        (TransferKind::Move, ConflictStrategy::Merge) => seq![
            TransferStep::MergeTree,
            TransferStep::RemoveSource,
        ],
    }
}

/// The steps of a copy or move with the given strategy, done in order and
/// stopping at the first failure.
pub fn transfer_steps(kind: TransferKind, st: ConflictStrategy) -> (r: Vec<TransferStep>)
    ensures
        r@ == steps_of(kind, st),
{
    match (kind, st) {
        (TransferKind::Copy, ConflictStrategy::Refuse) => vec![TransferStep::CopyTree],
        (TransferKind::Copy, ConflictStrategy::Replace) => vec![
            TransferStep::RemoveTargetIfExists,
            TransferStep::CopyTree,
        ],
        (TransferKind::Copy, ConflictStrategy::Merge) => vec![TransferStep::MergeTree],
        (TransferKind::Move, ConflictStrategy::Refuse) => vec![TransferStep::RenameOrCopyAndRemove],
        (TransferKind::Move, ConflictStrategy::Replace) => vec![
            TransferStep::RemoveTargetIfExists,
            TransferStep::RenameOrCopyAndRemove,
        ],
        (TransferKind::Move, ConflictStrategy::Merge) => vec![
            TransferStep::MergeTree,
            TransferStep::RemoveSource,
        ],
    }
}

/// How the rename that a move tries first came out.
pub enum RenameOutcome {
    Renamed,
    /// The source and the target lie on different devices.
    CrossesDevices,
    /// Any other failure, of the given kind and text.
    Failed { kind: IoErrorKind, text: String },
}

/// What a move does after trying to rename: `Ok(false)` when the rename
/// did it, `Ok(true)` when the tree is to be copied and the source removed
/// (the two lie on different devices), and the rename's error otherwise.
pub fn after_move_rename(outcome: RenameOutcome) -> (r: AppResult<bool>)
    ensures
        match outcome {
            RenameOutcome::Renamed => r matches Ok(c) && !c,
            RenameOutcome::CrossesDevices => r matches Ok(c) && c,
            RenameOutcome::Failed { kind, text } => r matches Err(e) && e@ == io_error_of(kind, text@),
        },
{
    match outcome {
        RenameOutcome::Renamed => Ok(false),
        RenameOutcome::CrossesDevices => Ok(true),
        RenameOutcome::Failed { kind, text } => Err(AppError::from_io(kind, text)),
    }
}

/// What merging does with one entry of the source directory.
#[derive(Debug, Clone, Copy, PartialEq, Eq, Structural)]
pub enum MergeAction {
    /// Both are directories: merge the one into the other.
    Recurse,
    /// Copy the source directory's tree, after removing what stands at the
    /// target if `remove_first`.
    CopyTree { remove_first: bool },
    /// Copy the file, after removing what stands at the target if `remove_first`.
    CopyFile { remove_first: bool },
}

/// What merging does with an entry: directories meet and merge; otherwise
/// what stands at the target is replaced.
pub open spec fn merge_action_of(from_is_dir: bool, to_is_dir: bool, to_exists: bool) -> MergeAction {
    if from_is_dir {
        if to_is_dir {
            MergeAction::Recurse
        } else {
            MergeAction::CopyTree { remove_first: to_exists }
        }
    } else {
        MergeAction::CopyFile { remove_first: to_exists }
    }
}

/// What merging does with an entry of the source directory.
pub fn merge_entry(from_is_dir: bool, to_is_dir: bool, to_exists: bool) -> (r: MergeAction)
    ensures
        r == merge_action_of(from_is_dir, to_is_dir, to_exists),
{
    if from_is_dir {
        if to_is_dir {
            MergeAction::Recurse
        } else {
            MergeAction::CopyTree { remove_first: to_exists }
        }
    } else {
        MergeAction::CopyFile { remove_first: to_exists }
    }
}

/// Whether a delete (to the trash) of `path` may start, and its description.
pub fn check_delete(path: &str, exists: bool) -> (r: AppResult<String>)
    ensures
        exists ==> (r matches Ok(d) && d@ == "删除 "@ + path@),
        !exists ==> (r matches Err(e) && e@ == AppErrorView::NotFound(path@)),
{
    crate::platform::ensure_exists(path, exists)?;
    Ok(String::from_str("删除 ").concat(path))
}

} // verus!
