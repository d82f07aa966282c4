//! Profile compression: which files go into a profile's 7z archive, how
//! they are grouped into solid blocks, and what each compression operation
//! does for a profile in a given state.
use vstd::prelude::*;
use crate::loader::ErrorKind;
use crate::text::same_text;

verus! {

/// Name of the 7z archive stored inside a profile folder when it is
/// compressed.
pub const ARCHIVE_FILE_NAME: &'static str = "choco-profile.7z";

/// Folder kept outside the archive, so screenshots stay viewable.
pub const EXCLUDED_DIR_NAME: &'static str = "screenshots";

/// Solid blocks are closed before they would reach this many bytes, and
/// files this large get a block of their own.
pub const MAX_BLOCK_SIZE: u64 = 4294967296u64;

/// Whether a path of a profile folder, given by its components relative
/// to that folder, stays out of the archive: the archive itself, at the
/// top of the folder, or anything in the folder's own screenshots folder.
pub open spec fn excluded_from_archive(rel: Seq<Seq<char>>) -> bool {
    rel.len() > 0 && (rel[0] == "screenshots"@ || (rel.len() == 1 && rel[0]
        == "choco-profile.7z"@))
}

/// Whether a path of a profile folder stays out of the archive, given its
/// components relative to the folder.
pub fn is_excluded_from_archive(rel: &Vec<String>) -> (b: bool)
    ensures
        b == excluded_from_archive(rel@.map_values(|c: String| c@)),
{
    if rel.len() == 0 {
        return false;
    }
    if same_text(rel[0].as_str(), EXCLUDED_DIR_NAME) {
        return true;
    }
    rel.len() == 1 && same_text(rel[0].as_str(), ARCHIVE_FILE_NAME)
}

/// Whether an entry of the profile folder is kept when the extracted files
/// are pruned after compression: the archive and the screenshots folder.
pub open spec fn kept_in_prune(is_archive: bool, file_name: Seq<char>) -> bool {
    is_archive || file_name == "screenshots"@
}

pub fn kept_when_pruning(is_archive: bool, file_name: &str) -> (b: bool)
    ensures
        b == kept_in_prune(is_archive, file_name@),
{
    is_archive || same_text(file_name, EXCLUDED_DIR_NAME)
}

/// Screenshots stay viewable while a profile is compressed: every path
/// inside the profile's own screenshots folder (its first component relative
/// to the profile folder is `screenshots`) stays out of the archive, and
/// pruning keeps that folder.
pub proof fn law_screenshots_stay_outside(rel: Seq<Seq<char>>, is_archive: bool)
    requires
        rel.len() > 0,
        rel[0] == "screenshots"@,
    ensures
        excluded_from_archive(rel),
        kept_in_prune(is_archive, rel[0]),
{
}

/// Compressing loses no file: a path of a profile folder (by its components
/// relative to the folder) that stays out of the archive lies under a
/// top-level entry that pruning keeps, the archive or the screenshots
/// folder; every other path goes into the archive.
pub proof fn law_no_file_lost(rel: Seq<Seq<char>>)
    requires
        rel.len() > 0,
    ensures
        excluded_from_archive(rel) ==> kept_in_prune(rel[0] == "choco-profile.7z"@, rel[0]),
        !kept_in_prune(rel[0] == "choco-profile.7z"@, rel[0]) ==> !excluded_from_archive(rel),
{
}

/// The total of `sizes[idx[k]]` over `k`.
pub open spec fn size_sum(sizes: Seq<u64>, idx: Seq<int>) -> int
    decreases idx.len(),
{
    if idx.len() == 0 {
        0
    } else {
        size_sum(sizes, idx.drop_last()) + sizes[idx.last()] as int
    }
}

/// The plan after the first `n` files: the blocks written so far (solid or
/// not, with the positions of their files), the files of the open solid
/// block, and their total size. A file of `MAX_BLOCK_SIZE` bytes or more
/// is written at once in a block of its own; any other file joins the open
/// block, which is first written out where the file would bring it to
/// `MAX_BLOCK_SIZE`.
pub open spec fn plan_prefix(sizes: Seq<u64>, n: nat) -> (Seq<(bool, Seq<int>)>, Seq<int>, int)
    decreases n,
{
    if n == 0 || n > sizes.len() {
        (seq![], seq![], 0)
    } else {
        let (blocks, open, open_size) = plan_prefix(sizes, (n - 1) as nat);
        let i = n - 1;
        let s = sizes[i] as int;
        if s >= MAX_BLOCK_SIZE {
            (blocks.push((false, seq![i])), open, open_size)
        } else if open_size + s >= MAX_BLOCK_SIZE {
            (blocks.push((true, open)), seq![i], s)
        } else {
            (blocks, open.push(i), open_size + s)
        }
    }
}

/// The blocks in which the files of the given sizes are written, in the
/// order they are written: the plan after all files, with the open block
/// written last where it holds any file.
pub open spec fn archive_plan(sizes: Seq<u64>) -> Seq<(bool, Seq<int>)> {
    let (blocks, open, _) = plan_prefix(sizes, sizes.len());
    if open.len() > 0 {
        blocks.push((true, open))
    } else {
        blocks
    }
}

/// One block of the archive: the positions (in the list of files) of the
/// files it holds, and whether it is compressed as one solid stream.
#[derive(Debug)]
pub struct ArchiveBlock {
    pub solid: bool,
    pub files: Vec<usize>,
}

pub open spec fn index_view(v: Seq<usize>) -> Seq<int> {
    v.map_values(|x: usize| x as int)
}

pub open spec fn block_views(b: Seq<ArchiveBlock>) -> Seq<(bool, Seq<int>)> {
    b.map_values(|x: ArchiveBlock| (x.solid, index_view(x.files@)))
}

/// Groups files, given their sizes in bytes, into the blocks of the
/// archive.
pub fn plan_archive_blocks(sizes: &Vec<u64>) -> (blocks: Vec<ArchiveBlock>)
    ensures
        block_views(blocks@) == archive_plan(sizes@),
{
    let mut blocks: Vec<ArchiveBlock> = Vec::new();
    let mut open: Vec<usize> = Vec::new();
    let mut open_size: u64 = 0;
    let mut i: usize = 0;
    assert(block_views(blocks@) =~= Seq::<(bool, Seq<int>)>::empty());
    assert(index_view(open@) =~= Seq::<int>::empty());
    while i < sizes.len()
        invariant
            i <= sizes.len(),
            (block_views(blocks@), index_view(open@), open_size as int) == plan_prefix(
                sizes@,
                i as nat,
            ),
            open_size < MAX_BLOCK_SIZE,
        decreases sizes.len() - i,
    {
        let s = sizes[i];
        let ghost old_blocks = blocks@;
        let ghost old_open = open@;
        if s >= MAX_BLOCK_SIZE {
            let mut single: Vec<usize> = Vec::new();
            single.push(i);
            blocks.push(ArchiveBlock { solid: false, files: single });
            proof {
                assert(index_view(single@) =~= seq![i as int]);
                assert(block_views(blocks@) =~= block_views(old_blocks).push(
                    (false, seq![i as int]),
                ));
            }
        } else if open_size + s >= MAX_BLOCK_SIZE {
            let full = open;
            open = Vec::new();
            open.push(i);
            blocks.push(ArchiveBlock { solid: true, files: full });
            open_size = s;
            proof {
                assert(index_view(open@) =~= seq![i as int]);
                assert(block_views(blocks@) =~= block_views(old_blocks).push(
                    (true, index_view(old_open)),
                ));
            }
        } else {
            open.push(i);
            open_size = open_size + s;
            assert(index_view(open@) =~= index_view(old_open).push(i as int));
        }
        i = i + 1;
    }
    if open.len() > 0 {
        let ghost old_blocks = blocks@;
        let last = open;
        blocks.push(ArchiveBlock { solid: true, files: last });
        assert(block_views(blocks@) =~= block_views(old_blocks).push((true, index_view(last@))));
    }
    blocks
}

/// How many file positions the blocks hold in all.
pub open spec fn files_in(blocks: Seq<(bool, Seq<int>)>) -> int
    decreases blocks.len(),
{
    if blocks.len() == 0 {
        0
    } else {
        files_in(blocks.drop_last()) + blocks.last().1.len()
    }
}

/// Whether some block holds file position `i`.
pub open spec fn in_some_block(blocks: Seq<(bool, Seq<int>)>, i: int) -> bool {
    exists|k: int| 0 <= k < blocks.len() && #[trigger] blocks[k].1.contains(i)
}

/// A block as written: a solid block holds at least one file and stays
/// under `MAX_BLOCK_SIZE` bytes; any other block holds exactly one file of
/// at least `MAX_BLOCK_SIZE` bytes; every position is a file's.
pub open spec fn well_formed_block(sizes: Seq<u64>, b: (bool, Seq<int>)) -> bool {
    &&& forall|j: int| 0 <= j < b.1.len() ==> 0 <= #[trigger] b.1[j] < sizes.len()
    &&& b.0 ==> b.1.len() > 0 && size_sum(sizes, b.1) < MAX_BLOCK_SIZE
    &&& !b.0 ==> b.1.len() == 1 && sizes[b.1[0]] >= MAX_BLOCK_SIZE
}

proof fn lemma_size_sum_push(sizes: Seq<u64>, idx: Seq<int>, i: int)
    ensures
        size_sum(sizes, idx.push(i)) == size_sum(sizes, idx) + sizes[i] as int,
{
    assert(idx.push(i).drop_last() =~= idx);
}

proof fn lemma_plan_prefix(sizes: Seq<u64>, n: nat)
    requires
        n <= sizes.len(),
    ensures
        ({
            let (blocks, open, open_size) = plan_prefix(sizes, n);
            &&& forall|k: int| 0 <= k < blocks.len() ==> well_formed_block(sizes, #[trigger] blocks[k])
            &&& forall|j: int| 0 <= j < open.len() ==> 0 <= #[trigger] open[j] < n
            &&& open_size == size_sum(sizes, open)
            &&& 0 <= open_size < MAX_BLOCK_SIZE
            &&& files_in(blocks) + open.len() == n
            &&& forall|i: int| 0 <= i < n ==> in_some_block(blocks, i) || open.contains(i)
        }),
    decreases n,
{
    if n > 0 {
        lemma_plan_prefix(sizes, (n - 1) as nat);
        let (blocks, open, open_size) = plan_prefix(sizes, (n - 1) as nat);
        let (nb, no, ns) = plan_prefix(sizes, n);
        let i = n - 1;
        let s = sizes[i] as int;
        if s >= MAX_BLOCK_SIZE {
            assert(nb.drop_last() =~= blocks);
            assert(well_formed_block(sizes, nb.last()));
            assert forall|k: int| 0 <= k < nb.len() implies well_formed_block(sizes, #[trigger] nb[k]) by {
                if k < blocks.len() {
                    assert(nb[k] == blocks[k]);
                }
            }
            assert forall|x: int| 0 <= x < n implies in_some_block(nb, x) || no.contains(x) by {
                if x == i {
                    assert(nb[blocks.len() as int].1[0] == x);
                    assert(nb[blocks.len() as int].1.contains(x));
                } else if in_some_block(blocks, x) {
                    let k = choose|k: int| 0 <= k < blocks.len() && #[trigger] blocks[k].1.contains(x);
                    assert(nb[k] == blocks[k]);
                }
            }
        } else if open_size + s >= MAX_BLOCK_SIZE {
            assert(nb.drop_last() =~= blocks);
            assert(open.len() > 0) by {
                if open.len() == 0 {
                    assert(size_sum(sizes, open) == 0);
                }
            }
            assert(well_formed_block(sizes, nb.last()));
            assert forall|k: int| 0 <= k < nb.len() implies well_formed_block(sizes, #[trigger] nb[k]) by {
                if k < blocks.len() {
                    assert(nb[k] == blocks[k]);
                }
            }
            assert(no =~= seq![i]);
            assert(no.drop_last() =~= Seq::<int>::empty());
            assert(size_sum(sizes, Seq::<int>::empty()) == 0);
            assert(size_sum(sizes, no) == s);
            assert forall|x: int| 0 <= x < n implies in_some_block(nb, x) || no.contains(x) by {
                if x == i {
                    assert(no[0] == x);
                } else if in_some_block(blocks, x) {
                    let k = choose|k: int| 0 <= k < blocks.len() && #[trigger] blocks[k].1.contains(x);
                    assert(nb[k] == blocks[k]);
                } else {
                    assert(nb[blocks.len() as int].1.contains(x));
                }
            }
        } else {
            lemma_size_sum_push(sizes, open, i);
            assert forall|x: int| 0 <= x < n implies in_some_block(nb, x) || no.contains(x) by {
                if x == i {
                    assert(no[open.len() as int] == x);
                } else if open.contains(x) {
                    let j = choose|j: int| 0 <= j < open.len() && open[j] == x;
                    assert(no[j] == x);
                }
            }
        }
    }
}

/// Every file is written exactly once: each position falls in some block,
/// and the blocks hold as many positions as there are files. Solid blocks
/// are non-empty and stay under `MAX_BLOCK_SIZE` bytes; every other block
/// holds one file of at least that size.
pub proof fn law_archive_plan(sizes: Seq<u64>)
    ensures
        forall|k: int|
            0 <= k < archive_plan(sizes).len() ==> well_formed_block(
                sizes,
                #[trigger] archive_plan(sizes)[k],
            ),
        files_in(archive_plan(sizes)) == sizes.len(),
        forall|i: int| 0 <= i < sizes.len() ==> in_some_block(archive_plan(sizes), i),
{
    lemma_plan_prefix(sizes, sizes.len());
    let (blocks, open, open_size) = plan_prefix(sizes, sizes.len());
    let plan = archive_plan(sizes);
    if open.len() > 0 {
        assert(plan.drop_last() =~= blocks);
        assert(well_formed_block(sizes, plan.last()));
        assert forall|k: int| 0 <= k < plan.len() implies well_formed_block(sizes, #[trigger] plan[k]) by {
            if k < blocks.len() {
                assert(plan[k] == blocks[k]);
            }
        }
        assert forall|i: int| 0 <= i < sizes.len() implies in_some_block(plan, i) by {
            if in_some_block(blocks, i) {
                let k = choose|k: int| 0 <= k < blocks.len() && #[trigger] blocks[k].1.contains(i);
                assert(plan[k] == blocks[k]);
            } else {
                assert(plan[blocks.len() as int].1.contains(i));
            }
        }
    }
}

/// Whether a block is solid.
pub open spec fn is_solid() -> spec_fn((bool, Seq<int>)) -> bool {
    |b: (bool, Seq<int>)| b.0
}

/// The solid blocks of a plan, in order.
pub open spec fn solid_blocks(plan: Seq<(bool, Seq<int>)>) -> Seq<(bool, Seq<int>)> {
    plan.filter(is_solid())
}

/// Whether the `t`-th of the solid blocks `solid` was full when it was
/// closed: the first file of the next solid block would have brought it to
/// `MAX_BLOCK_SIZE` bytes.
pub open spec fn closed_when_full(sizes: Seq<u64>, solid: Seq<(bool, Seq<int>)>, t: int) -> bool {
    size_sum(sizes, solid[t].1) + sizes[solid[t + 1].1[0]] as int >= MAX_BLOCK_SIZE
}

proof fn lemma_plan_full(sizes: Seq<u64>, n: nat)
    requires
        n <= sizes.len(),
    ensures
        ({
            let (blocks, open, open_size) = plan_prefix(sizes, n);
            let solid = solid_blocks(blocks);
            &&& forall|t: int|
                0 <= t < solid.len() - 1 ==> #[trigger] closed_when_full(sizes, solid, t)
            &&& solid.len() > 0 ==> open.len() > 0 && size_sum(sizes, solid.last().1)
                + sizes[open[0]] as int >= MAX_BLOCK_SIZE
        }),
    decreases n,
{
    if n > 0 {
        lemma_plan_full(sizes, (n - 1) as nat);
        lemma_plan_prefix(sizes, (n - 1) as nat);
        let (blocks, open, open_size) = plan_prefix(sizes, (n - 1) as nat);
        let (nb, no, ns) = plan_prefix(sizes, n);
        let solid = solid_blocks(blocks);
        let i = n - 1;
        let s = sizes[i] as int;
        if s >= MAX_BLOCK_SIZE {
            blocks.lemma_filter_push((false, seq![i]), is_solid());
            assert(solid_blocks(nb) == solid);
        } else if open_size + s >= MAX_BLOCK_SIZE {
            blocks.lemma_filter_push((true, open), is_solid());
            let ns2 = solid_blocks(nb);
            assert(ns2 == solid.push((true, open)));
            assert forall|t: int| 0 <= t < ns2.len() - 1 implies #[trigger] closed_when_full(
                sizes,
                ns2,
                t,
            ) by {
                assert(ns2[t] == solid[t]);
                if t < solid.len() - 1 {
                    assert(closed_when_full(sizes, solid, t));
                    assert(ns2[t + 1] == solid[t + 1]);
                } else {
                    assert(ns2[t + 1] == (true, open));
                }
            }
            assert(no =~= seq![i]);
            assert(ns2.last() == (true, open));
        } else {
            assert(solid_blocks(nb) == solid);
            if solid.len() > 0 {
                assert(no[0] == open[0]);
            }
        }
    }
}

/// A solid block is closed only once it is full: for each solid block of
/// the plan but the last, the first file of the next solid block would
/// bring it to `MAX_BLOCK_SIZE` bytes. So files that together stay under
/// that size share one solid block.
pub proof fn law_solid_blocks_closed_when_full(sizes: Seq<u64>)
    ensures
        forall|t: int|
            0 <= t < solid_blocks(archive_plan(sizes)).len() - 1 ==> #[trigger] closed_when_full(
                sizes,
                solid_blocks(archive_plan(sizes)),
                t,
            ),
{
    lemma_plan_full(sizes, sizes.len());
    let (blocks, open, open_size) = plan_prefix(sizes, sizes.len());
    let solid = solid_blocks(blocks);
    let plan = archive_plan(sizes);
    if open.len() > 0 {
        blocks.lemma_filter_push((true, open), is_solid());
        let ps = solid_blocks(plan);
        assert(ps == solid.push((true, open)));
        assert forall|t: int| 0 <= t < ps.len() - 1 implies #[trigger] closed_when_full(
            sizes,
            ps,
            t,
        ) by {
            assert(ps[t] == solid[t]);
            if t < solid.len() - 1 {
                assert(closed_when_full(sizes, solid, t));
                assert(ps[t + 1] == solid[t + 1]);
            } else {
                assert(ps[t + 1] == (true, open));
            }
        }
    }
}

/// The total size of the files to compress, which the progress bar counts
/// down.
pub open spec fn sizes_total(sizes: Seq<u64>) -> int
    decreases sizes.len(),
{
    if sizes.len() == 0 {
        0
    } else {
        sizes_total(sizes.drop_last()) + sizes.last() as int
    }
}

pub fn total_size(sizes: &Vec<u64>) -> (t: u64)
    requires
        sizes_total(sizes@) <= u64::MAX,
    ensures
        t == sizes_total(sizes@),
{
    let mut t: u64 = 0;
    let mut i: usize = 0;
    while i < sizes.len()
        invariant
            i <= sizes.len(),
            t == sizes_total(sizes@.take(i as int)),
            sizes_total(sizes@) <= u64::MAX,
        decreases sizes.len() - i,
    {
        proof {
            assert(sizes@.take(i + 1).drop_last() =~= sizes@.take(i as int));
            lemma_total_prefix(sizes@, i + 1);
        }
        t = t + sizes[i];
        i = i + 1;
    }
    assert(sizes@.take(sizes.len() as int) =~= sizes@);
    t
}

proof fn lemma_total_prefix(sizes: Seq<u64>, k: int)
    requires
        0 <= k <= sizes.len(),
    ensures
        sizes_total(sizes.take(k)) <= sizes_total(sizes),
    decreases sizes.len() - k,
{
    if k < sizes.len() {
        lemma_total_prefix(sizes, k + 1);
        assert(sizes.take(k + 1).drop_last() =~= sizes.take(k));
    } else {
        assert(sizes.take(k) =~= sizes);
    }
}

/// What a compression operation does to a profile's folder.
#[derive(PartialEq, Eq, Structural, Debug)]
pub enum FolderAction {
    /// Nothing to do.
    Nothing,
    /// Pack the files into the archive, then remove them.
    Compress,
    /// Unpack the archive, then remove it.
    Extract,
}

pub open spec fn running_message() -> Seq<char> {
    "Instance is currently running; stop it before changing compression"@
}

fn running_error() -> (e: ErrorKind)
    ensures
        e matches ErrorKind::InputError(m) && m@ == running_message(),
{
    ErrorKind::InputError(String::from_str(
        "Instance is currently running; stop it before changing compression",
    ))
}

fn missing_error(verb: &str, instance_id: &str) -> (e: ErrorKind)
    ensures
        e matches ErrorKind::InputError(m) && m@ == "Tried to "@ + verb@ + " nonexistent instance "@
            + instance_id@,
{
    let mut m = String::from_str("Tried to ");
    m.append(verb);
    m.append(" nonexistent instance ");
    m.append(instance_id);
    ErrorKind::InputError(m)
}

/// Compressing on request: refused while the profile runs or where it does
/// not exist; nothing to do where it is stored compressed already.
pub fn compress_action(instance_id: &str, running: bool, compressed: Option<bool>) -> (r: Result<
    FolderAction,
    ErrorKind,
>)
    ensures
        running ==> (r matches Err(ErrorKind::InputError(m)) && m@ == running_message()),
        !running && compressed is None ==> (r matches Err(ErrorKind::InputError(m)) && m@
            == "Tried to "@ + "compress"@ + " nonexistent instance "@ + instance_id@),
        !running && compressed == Some(true) ==> r == Ok::<FolderAction, ErrorKind>(
            FolderAction::Nothing,
        ),
        !running && compressed == Some(false) ==> r == Ok::<FolderAction, ErrorKind>(
            FolderAction::Compress,
        ),
{
    if running {
        return Err(running_error());
    }
    match compressed {
        None => Err(missing_error("compress", instance_id)),
        Some(true) => Ok(FolderAction::Nothing),
        Some(false) => Ok(FolderAction::Compress),
    }
}

/// Decompressing on request: refused while the profile runs or where it
/// does not exist; the archive is extracted where it is present (the
/// profile is then marked as not compressed either way).
pub fn decompress_action(instance_id: &str, running: bool, exists: bool, archive_exists: bool) -> (r:
    Result<FolderAction, ErrorKind>)
    ensures
        running ==> (r matches Err(ErrorKind::InputError(m)) && m@ == running_message()),
        !running && !exists ==> (r matches Err(ErrorKind::InputError(m)) && m@
            == "Tried to "@ + "decompress"@ + " nonexistent instance "@ + instance_id@),
        !running && exists ==> r == Ok::<FolderAction, ErrorKind>(
            if archive_exists {
                FolderAction::Extract
            } else {
                FolderAction::Nothing
            },
        ),
{
    if running {
        return Err(running_error());
    }
    if !exists {
        return Err(missing_error("decompress", instance_id));
    }
    if archive_exists {
        Ok(FolderAction::Extract)
    } else {
        Ok(FolderAction::Nothing)
    }
}

/// Before a launch: a profile stored compressed is extracted where its
/// archive is present (the compressed flag stays, so it is packed again
/// after the game exits).
pub open spec fn launch_action(compressed: bool, archive_exists: bool) -> FolderAction {
    if compressed && archive_exists {
        FolderAction::Extract
    } else {
        FolderAction::Nothing
    }
}

/// After the game exits: a profile flagged compressed whose archive is
/// absent is packed again, where it has files to pack.
pub open spec fn exit_action(compressed: bool, archive_exists: bool, has_files: bool) -> FolderAction {
    if compressed && !archive_exists && has_files {
        FolderAction::Compress
    } else {
        FolderAction::Nothing
    }
}

pub fn ensure_extracted_action(instance_id: &str, compressed: Option<bool>, archive_exists: bool) -> (r:
    Result<FolderAction, ErrorKind>)
    ensures
        compressed is None ==> (r matches Err(ErrorKind::InputError(m)) && m@
            == "Tried to "@ + "launch"@ + " nonexistent instance "@ + instance_id@),
        compressed matches Some(c) ==> r == Ok::<FolderAction, ErrorKind>(
            launch_action(c, archive_exists),
        ),
{
    match compressed {
        None => Err(missing_error("launch", instance_id)),
        Some(c) => {
            if c && archive_exists {
                Ok(FolderAction::Extract)
            } else {
                Ok(FolderAction::Nothing)
            }
        },
    }
}

pub fn recompress_action(
    instance_id: &str,
    compressed: Option<bool>,
    archive_exists: bool,
    has_files: bool,
) -> (r: Result<FolderAction, ErrorKind>)
    ensures
        compressed is None ==> (r matches Err(ErrorKind::InputError(m)) && m@
            == "Tried to "@ + "recompress"@ + " nonexistent instance "@ + instance_id@),
        compressed matches Some(c) ==> r == Ok::<FolderAction, ErrorKind>(
            exit_action(c, archive_exists, has_files),
        ),
{
    match compressed {
        None => Err(missing_error("recompress", instance_id)),
        Some(c) => {
            if c && !archive_exists && has_files {
                Ok(FolderAction::Compress)
            } else {
                Ok(FolderAction::Nothing)
            }
        },
    }
}

/// A profile stored compressed goes round a play session: the launch
/// extracts its archive, and once the game exits (the archive gone, the
/// files back) it is packed again; in no state do both steps act.
pub proof fn law_launch_cycle(compressed: bool, archive_exists: bool, has_files: bool)
    ensures
        launch_action(true, true) == FolderAction::Extract,
        exit_action(true, false, true) == FolderAction::Compress,
        !(launch_action(compressed, archive_exists) == FolderAction::Extract && exit_action(
            compressed,
            archive_exists,
            has_files,
        ) == FolderAction::Compress),
        !compressed ==> launch_action(compressed, archive_exists) == FolderAction::Nothing
            && exit_action(compressed, archive_exists, has_files) == FolderAction::Nothing,
{
}

} // verus!
