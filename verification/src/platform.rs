//! Platform conventions: hidden entries, the roots of the file tree.
use vstd::prelude::*;
use crate::error::{AppError, AppErrorView, AppResult};

verus! {

/// The text of a path. Paths are held as UTF-8 text here, so a path reads
/// back as the very characters it was made of (what `to_string_lossy` gives
/// for a path built from a `str`).
pub fn path_to_string(p: &str) -> (r: String)
    ensures
        r@ == p@,
{
    String::from_str(p)
}

/// Refuses a path that does not exist (`exists` says whether it does).
pub fn ensure_exists(path: &str, exists: bool) -> (r: AppResult<()>)
    ensures
        exists ==> r is Ok,
        !exists ==> (r matches Err(e) && e@ == AppErrorView::NotFound(path@)),
{
    if !exists {
        return Err(AppError::NotFound(path_to_string(path)));
    }
    Ok(())
}

/// The Windows file attribute bits that hide an entry: hidden and system.
pub const HIDDEN_OR_SYSTEM: u32 = 0x2 | 0x4;

/// The Windows file attribute bits of a backwards-compatibility junction:
/// hidden, system and reparse point together.
pub const COMPAT_JUNCTION: u32 = 0x2 | 0x4 | 0x400;

/// An entry is hidden when its name begins with `.`, or when its Windows
/// attributes (where the platform has them) mark it hidden or system.
pub open spec fn hidden(name: Seq<char>, attributes: Option<u32>) -> bool {
    (attributes matches Some(a) && a & HIDDEN_OR_SYSTEM != 0) || (name.len() > 0 && name[0] == '.')
}

/// Whether the entry named `name` is hidden; `attributes` are its Windows
/// file attributes, read from the entry itself (`None` on other platforms).
pub fn is_hidden(name: &str, attributes: Option<u32>) -> (r: bool)
    ensures
        r == hidden(name@, attributes),
{
    if let Some(a) = attributes {
        if a & HIDDEN_OR_SYSTEM != 0 {
            return true;
        }
    }
    let c = crate::text::chars_of(name);
    c.len() > 0 && c[0] == '.'
}

/// Whether an entry with the given Windows file attributes is one of the
/// backwards-compatibility junctions (such as `Application Data` in the
/// home directory), which are never accessible and never listed. Without
/// attributes (other platforms) nothing is.
pub fn is_compat_junction(attributes: Option<u32>) -> (r: bool)
    ensures
        r == (attributes matches Some(a) && a & COMPAT_JUNCTION == COMPAT_JUNCTION),
{
    match attributes {
        Some(a) => a & COMPAT_JUNCTION == COMPAT_JUNCTION,
        None => false,
    }
}

/// The kind of a root of the file tree.
#[derive(Debug, Clone, Copy, PartialEq, Eq, Structural)]
pub enum RootKind {
    Home,
    SystemRoot,
    Drive,
    Volume,
    ICloud,
    Removable,
}

/// A root of the file tree.
#[derive(Debug)]
pub struct RootEntry {
    pub label: String,
    pub path: String,
    pub kind: RootKind,
}

/// A root entry read by its character sequences.
pub open spec fn root_view(r: RootEntry) -> (Seq<char>, Seq<char>, RootKind) {
    (r.label@, r.path@, r.kind)
}

/// The home directory as a root: labelled with its own name, or with its
/// path where it has none.
pub fn home_root(home: &str, file_name: Option<String>) -> (r: RootEntry)
    ensures
        root_view(r) == (
            match file_name {
                Some(n) => n@,
                None => home@,
            },
            home@,
            RootKind::Home,
        ),
{
    let label = match file_name {
        Some(n) => n,
        None => String::from_str(home),
    };
    RootEntry { label, path: String::from_str(home), kind: RootKind::Home }
}

/// Whether drive `i` (0 for A) is present in the mask of logical drives.
pub open spec fn drive_present(mask: u32, i: nat) -> bool {
    mask & (1u32 << (i as u32)) != 0
}

/// The letters of the drives present among the first `n` of the mask.
pub open spec fn drive_letters_below(mask: u32, n: nat) -> Seq<char>
    decreases n,
{
    if n == 0 {
        Seq::empty()
    } else {
        let k = (n - 1) as nat;
        drive_letters_below(mask, k) + if drive_present(mask, k) {
            seq![(65 + k) as char]
        } else {
            Seq::empty()
        }
    }
}

/// The letters, A to Z in order, of the drives present in a mask of logical
/// drives (bit 0 for A).
pub fn drive_letters(mask: u32) -> (r: Vec<char>)
    ensures
        r@ == drive_letters_below(mask, 26),
{
    let mut out: Vec<char> = Vec::new();
    let mut i: u32 = 0;
    while i < 26
        invariant
            i <= 26,
            out@ == drive_letters_below(mask, i as nat),
        decreases 26 - i,
    {
        if mask & (1u32 << i) != 0 {
            let b: u8 = 65u8 + (i as u8);
            out.push(b as char);
        }
        i = i + 1;
        assert(out@ =~= drive_letters_below(mask, i as nat));
    }
    out
}

/// The root of drive `letter`: labelled `X:`, at `X:\`.
pub fn drive_root(letter: char) -> (r: RootEntry)
    ensures
        root_view(r) == (seq![letter, ':'], seq![letter, ':', '\\'], RootKind::Drive),
{
    let mut label: Vec<char> = Vec::new();
    label.push(letter);
    label.push(':');
    let mut path: Vec<char> = Vec::new();
    path.push(letter);
    path.push(':');
    path.push('\\');
    assert(label@ =~= seq![letter, ':']);
    assert(path@ =~= seq![letter, ':', '\\']);
    RootEntry {
        label: crate::text::string_from_chars(label.as_slice()),
        path: crate::text::string_from_chars(path.as_slice()),
        kind: RootKind::Drive,
    }
}

/// The system root of macOS: `Macintosh HD` at `/`.
pub fn mac_system_root() -> (r: RootEntry)
    ensures
        root_view(r) == ("Macintosh HD"@, "/"@, RootKind::SystemRoot),
{
    RootEntry {
        label: String::from_str("Macintosh HD"),
        path: String::from_str("/"),
        kind: RootKind::SystemRoot,
    }
}

/// The system root of other Unix systems: `/` at `/`.
pub fn unix_system_root() -> (r: RootEntry)
    ensures
        root_view(r) == ("/"@, "/"@, RootKind::SystemRoot),
{
    RootEntry { label: String::from_str("/"), path: String::from_str("/"), kind: RootKind::SystemRoot }
}

/// Where iCloud Drive lies below the home directory on macOS.
pub const ICLOUD_RELATIVE: &'static str = "Library/Mobile Documents/com~apple~CloudDocs";

/// iCloud Drive as a root.
pub fn icloud_root(path: &str) -> (r: RootEntry)
    ensures
        root_view(r) == ("iCloud Drive"@, path@, RootKind::ICloud),
{
    RootEntry { label: String::from_str("iCloud Drive"), path: String::from_str(path), kind: RootKind::ICloud }
}

/// A mounted volume as a root, labelled with its directory's name.
pub fn volume_root(name: &str, path: &str) -> (r: RootEntry)
    ensures
        root_view(r) == (name@, path@, RootKind::Volume),
{
    RootEntry { label: String::from_str(name), path: String::from_str(path), kind: RootKind::Volume }
}

/// A removable medium as a root, labelled with its directory's name.
pub fn removable_root(name: &str, path: &str) -> (r: RootEntry)
    ensures
        root_view(r) == (name@, path@, RootKind::Removable),
{
    RootEntry { label: String::from_str(name), path: String::from_str(path), kind: RootKind::Removable }
}

/// An entry of `/Volumes` is listed when it is a directory and not the link
/// to the system root.
pub fn keep_volume(is_dir: bool, links_to_root: bool) -> (r: bool)
    ensures
        r == (is_dir && !links_to_root),
{
    is_dir && !links_to_root
}

/// The directories whose subdirectories are the removable media of user
/// `user` on Linux, in the order they are searched.
pub fn mount_bases(user: &str) -> (r: Vec<String>)
    ensures
        r@.len() == 4,
        r@[0]@ == "/media/"@ + user@,
        r@[1]@ == "/run/media/"@ + user@,
        r@[2]@ == "/mnt"@,
        r@[3]@ == "/media"@,
{
    let mut out: Vec<String> = Vec::new();
    out.push(String::from_str("/media/").concat(user));
    out.push(String::from_str("/run/media/").concat(user));
    out.push(String::from_str("/mnt"));
    out.push(String::from_str("/media"));
    out
}


/// The platform whose roots are listed.
#[derive(Debug, Clone, Copy, PartialEq, Eq, Structural)]
pub enum RootPlatform {
    Windows,
    MacOs,
    /// A Unix system other than macOS.
    OtherUnix,
    /// Any other system: only the home directory.
    Other,
}

/// A directory that may be listed as a root, with what the file system says
/// of it.
pub struct RootCandidate {
    pub name: String,
    pub path: String,
    pub is_dir: bool,
    /// It is a symbolic link to the system root.
    pub links_to_root: bool,
}

/// Root entries read by their character sequences.
pub open spec fn roots_view(v: Seq<RootEntry>) -> Seq<(Seq<char>, Seq<char>, RootKind)> {
    v.map_values(|e: RootEntry| root_view(e))
}

/// The candidates that are listed, as roots of kind `Volume` (directories
/// that are not the link to the system root) or `Removable` (directories),
/// in their order.
pub open spec fn kept_roots(cs: Seq<RootCandidate>, volume: bool) -> Seq<(Seq<char>, Seq<char>, RootKind)>
    decreases cs.len(),
{
    if cs.len() == 0 {
        Seq::empty()
    } else {
        let c = cs.last();
        let rest = kept_roots(cs.drop_last(), volume);
        if volume && c.is_dir && !c.links_to_root {
            rest.push((c.name@, c.path@, RootKind::Volume))
        } else if !volume && c.is_dir {
            rest.push((c.name@, c.path@, RootKind::Removable))
        } else {
            rest
        }
    }
}

/// The drives that are listed: those whose root exists, in their order.
pub open spec fn kept_drives(ds: Seq<(char, bool)>) -> Seq<(Seq<char>, Seq<char>, RootKind)>
    decreases ds.len(),
{
    if ds.len() == 0 {
        Seq::empty()
    } else {
        let (letter, exists) = ds.last();
        let rest = kept_drives(ds.drop_last());
        if exists {
            rest.push((seq![letter, ':'], seq![letter, ':', '\\'], RootKind::Drive))
        } else {
            rest
        }
    }
}

/// The roots of the file tree, in order: the home directory where it is
/// known; then on Windows the drives whose root exists; on macOS the system
/// root, iCloud Drive where it exists, and the volumes; on another Unix `/`
/// and the removable media.
pub open spec fn listed_roots(
    platform: RootPlatform,
    home: Option<(Seq<char>, Option<Seq<char>>)>,
    drives: Seq<(char, bool)>,
    icloud: Option<(Seq<char>, bool)>,
    volumes: Seq<RootCandidate>,
    removables: Seq<RootCandidate>,
) -> Seq<(Seq<char>, Seq<char>, RootKind)> {
    let h = match home {
        Some((p, n)) => seq![
            (match n {
                Some(x) => x,
                None => p,
            }, p, RootKind::Home),
        ],
        None => Seq::empty(),
    };
    h + match platform {
        RootPlatform::Windows => kept_drives(drives),
        RootPlatform::MacOs => seq![("Macintosh HD"@, "/"@, RootKind::SystemRoot)] + match icloud {
            Some((p, true)) => seq![("iCloud Drive"@, p, RootKind::ICloud)],
            _ => Seq::empty(),
        } + kept_roots(volumes, true),
        RootPlatform::OtherUnix => seq![("/"@, "/"@, RootKind::SystemRoot)] + kept_roots(
            removables,
            false,
        ),
        RootPlatform::Other => Seq::empty(),
    }
}

/// The home directory and its own name, read by their characters.
pub open spec fn home_view(home: Option<(String, Option<String>)>) -> Option<(Seq<char>, Option<Seq<char>>)> {
    match home {
        Some((p, n)) => Some((p@, crate::text::opt_chars(n))),
        None => None,
    }
}

/// The iCloud Drive directory and whether it exists, read by its characters.
pub open spec fn icloud_view(icloud: Option<(String, bool)>) -> Option<(Seq<char>, bool)> {
    match icloud {
        Some((p, e)) => Some((p@, e)),
        None => None,
    }
}

/// The home directory, where it is known, is the first root on every
/// platform, labelled with its own name (or its path where it has none);
/// where it is not known, no root is a home directory.
pub proof fn law_home_listed_first(
    platform: RootPlatform,
    home: Option<(Seq<char>, Option<Seq<char>>)>,
    drives: Seq<(char, bool)>,
    icloud: Option<(Seq<char>, bool)>,
    volumes: Seq<RootCandidate>,
    removables: Seq<RootCandidate>,
)
    ensures
        home matches Some((p, n)) ==> listed_roots(platform, home, drives, icloud, volumes, removables).len() >= 1
            && listed_roots(platform, home, drives, icloud, volumes, removables)[0] == (
            match n {
                Some(x) => x,
                None => p,
            },
            p,
            RootKind::Home,
        ),
        forall|i: int|
            0 <= i < listed_roots(platform, home, drives, icloud, volumes, removables).len() && (
            #[trigger] listed_roots(platform, home, drives, icloud, volumes, removables)[i]).2
                == RootKind::Home ==> i == 0 && home is Some,
{
    let all = listed_roots(platform, home, drives, icloud, volumes, removables);
    lemma_kept_roots_kinds(volumes, true);
    lemma_kept_roots_kinds(removables, false);
    lemma_kept_drives_kind(drives);
}

/// The system root comes right after the home directory (or first, without
/// one) on macOS, labelled `Macintosh HD`, and on other Unix systems,
/// labelled `/`; Windows lists drives instead and no system root.
pub proof fn law_system_root_listed(
    platform: RootPlatform,
    home: Option<(Seq<char>, Option<Seq<char>>)>,
    drives: Seq<(char, bool)>,
    icloud: Option<(Seq<char>, bool)>,
    volumes: Seq<RootCandidate>,
    removables: Seq<RootCandidate>,
)
    ensures
        ({
            let all = listed_roots(platform, home, drives, icloud, volumes, removables);
            let at = if home is Some {
                1int
            } else {
                0int
            };
            &&& platform == RootPlatform::MacOs ==> all.len() > at && all[at] == (
                "Macintosh HD"@,
                "/"@,
                RootKind::SystemRoot,
            )
            &&& platform == RootPlatform::OtherUnix ==> all.len() > at && all[at] == (
                "/"@,
                "/"@,
                RootKind::SystemRoot,
            )
            &&& platform == RootPlatform::Windows ==> forall|i: int|
                at <= i < all.len() ==> (#[trigger] all[i]).2 == RootKind::Drive
        }),
{
    lemma_kept_drives_kind(drives);
}

/// The roots kept from candidates are volumes or removable media.
pub proof fn lemma_kept_roots_kinds(cs: Seq<RootCandidate>, volume: bool)
    ensures
        forall|i: int|
            0 <= i < kept_roots(cs, volume).len() ==> (#[trigger] kept_roots(cs, volume)[i]).2 == (
            if volume {
                RootKind::Volume
            } else {
                RootKind::Removable
            }),
    decreases cs.len(),
{
    if cs.len() > 0 {
        lemma_kept_roots_kinds(cs.drop_last(), volume);
    }
}

/// The roots kept from drive letters are drives.
pub proof fn lemma_kept_drives_kind(ds: Seq<(char, bool)>)
    ensures
        forall|i: int|
            0 <= i < kept_drives(ds).len() ==> (#[trigger] kept_drives(ds)[i]).2 == RootKind::Drive,
    decreases ds.len(),
{
    if ds.len() > 0 {
        lemma_kept_drives_kind(ds.drop_last());
    }
}

/// Appends the listed candidates to `out` (see `kept_roots`).
fn push_kept(out: &mut Vec<RootEntry>, cs: &Vec<RootCandidate>, volume: bool)
    ensures
        roots_view(final(out)@) == roots_view(old(out)@) + kept_roots(cs@, volume),
{
    let ghost start = roots_view(out@);
    let mut i: usize = 0;
    while i < cs.len()
        invariant
            i <= cs.len(),
            roots_view(out@) == start + kept_roots(cs@.take(i as int), volume),
        decreases cs.len() - i,
    {
        let c = &cs[i];
        let ghost before = out@;
        assert(cs@.take(i + 1).drop_last() =~= cs@.take(i as int));
        assert(cs@.take(i + 1).last() == cs@[i as int]);
        if volume && keep_volume(c.is_dir, c.links_to_root) {
            out.push(volume_root(c.name.as_str(), c.path.as_str()));
            assert(roots_view(out@) =~= roots_view(before).push(root_view(out@.last())));
        } else if !volume && c.is_dir {
            out.push(removable_root(c.name.as_str(), c.path.as_str()));
            assert(roots_view(out@) =~= roots_view(before).push(root_view(out@.last())));
        }
        i = i + 1;
    }
    assert(cs@.take(cs@.len() as int) =~= cs@);
}

/// Appends the drives whose root exists to `out` (see `kept_drives`).
fn push_drives(out: &mut Vec<RootEntry>, ds: &Vec<(char, bool)>)
    ensures
        roots_view(final(out)@) == roots_view(old(out)@) + kept_drives(ds@),
{
    let ghost start = roots_view(out@);
    let mut i: usize = 0;
    while i < ds.len()
        invariant
            i <= ds.len(),
            roots_view(out@) == start + kept_drives(ds@.take(i as int)),
        decreases ds.len() - i,
    {
        let (letter, exists) = ds[i];
        let ghost before = out@;
        assert(ds@.take(i + 1).drop_last() =~= ds@.take(i as int));
        assert(ds@.take(i + 1).last() == ds@[i as int]);
        if exists {
            out.push(drive_root(letter));
            assert(roots_view(out@) =~= roots_view(before).push(root_view(out@.last())));
        }
        i = i + 1;
    }
    assert(ds@.take(ds@.len() as int) =~= ds@);
}

/// The roots of the file tree on `platform` (see `listed_roots`), from what
/// the file system says: the home directory and its own name, each drive
/// letter with whether its root exists, the iCloud Drive directory with
/// whether it exists, and the candidate volumes and removable media.
pub fn list_roots(
    platform: RootPlatform,
    home: Option<(String, Option<String>)>,
    drives: &Vec<(char, bool)>,
    icloud: Option<(String, bool)>,
    volumes: &Vec<RootCandidate>,
    removables: &Vec<RootCandidate>,
) -> (r: Vec<RootEntry>)
    ensures
        roots_view(r@) == listed_roots(
            platform,
            home_view(home),
            drives@,
            icloud_view(icloud),
            volumes@,
            removables@,
        ),
{
    let mut out: Vec<RootEntry> = Vec::new();
    let ghost hv = home_view(home);
    match home {
        Some((p, n)) => {
            out.push(home_root(p.as_str(), n));
        },
        None => {},
    }
    let ghost h = roots_view(out@);
    assert(h =~= match hv {
        Some((p, n)) => seq![
            (match n {
                Some(x) => x,
                None => p,
            }, p, RootKind::Home),
        ],
        None => Seq::<(Seq<char>, Seq<char>, RootKind)>::empty(),
    });
    match platform {
        RootPlatform::Windows => {
            push_drives(&mut out, drives);
        },
        RootPlatform::MacOs => {
            out.push(mac_system_root());
            let ghost a = roots_view(out@);
            assert(a =~= h + seq![("Macintosh HD"@, "/"@, RootKind::SystemRoot)]);
            let ghost iv = icloud_view(icloud);
            match icloud {
                Some((p, true)) => {
                    out.push(icloud_root(p.as_str()));
                },
                _ => {},
            }
            let ghost b = roots_view(out@);
            assert(b =~= a + match iv {
                Some((p, true)) => seq![("iCloud Drive"@, p, RootKind::ICloud)],
                _ => Seq::<(Seq<char>, Seq<char>, RootKind)>::empty(),
            });
            push_kept(&mut out, volumes, true);
        },
        RootPlatform::OtherUnix => {
            out.push(unix_system_root());
            push_kept(&mut out, removables, false);
        },
        RootPlatform::Other => {},
    }
    out
}

} // verus!
