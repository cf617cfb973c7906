//! Zip archives: their members, the members' sizes and contents, and what is
//! written when some of them are extracted.
use vstd::prelude::*;
use crate::text::{opt_text, texts};

verus! {

// ── what the zip crate reads ───────────────────────────────────────

/// The names of an archive's members, in the order of its central directory;
/// nothing where the bytes are no zip archive.
pub uninterp spec fn zip_names(archive: Seq<u8>) -> Option<Seq<Seq<char>>>;

/// The uncompressed size that an archive gives for a member.
pub uninterp spec fn zip_size(archive: Seq<u8>, name: Seq<char>) -> Option<u64>;

/// The contents of a member; nothing where it is not there or cannot be read.
pub uninterp spec fn zip_content(archive: Seq<u8>, name: Seq<char>) -> Option<Seq<u8>>;

/// `zip::ZipArchive::file_names` of the archive that `zip::ZipArchive::new`
/// reads: claimed to depend on the bytes alone, and to fail as `new` does.
#[verifier::external_body]
pub(crate) fn names_in(archive: &[u8]) -> (r: Option<Vec<String>>)
    ensures
        r is Some <==> zip_names(archive@) is Some,
        r matches Some(v) ==> zip_names(archive@) == Some(texts(v@)),
{
    let zip = zip::ZipArchive::new(std::io::Cursor::new(archive)).ok()?;
    Some(zip.file_names().map(str::to_owned).collect())
}

/// `zip::read::ZipFile::size` of the member that `zip::ZipArchive::by_name`
/// finds: claimed to depend on the bytes and the name alone, and to be there
/// only for a name of [`zip_names`].
#[verifier::external_body]
pub(crate) fn size_in(archive: &[u8], name: &str) -> (r: Option<u64>)
    ensures
        r == zip_size(archive@, name@),
        r is Some ==> zip_names(archive@) is Some && zip_names(archive@)->0.contains(name@),
{
    let mut zip = zip::ZipArchive::new(std::io::Cursor::new(archive)).ok()?;
    let file = zip.by_name(name).ok()?;
    Some(file.size())
}

/// The bytes that `zip::ZipArchive::by_name` reads to the end of the member:
/// claimed to depend on the bytes of the archive and the name alone, and to be
/// there only for a name of [`zip_names`].
#[verifier::external_body]
pub(crate) fn content_in(archive: &[u8], name: &str) -> (r: Option<Vec<u8>>)
    ensures
        r is Some <==> zip_content(archive@, name@) is Some,
        r matches Some(b) ==> zip_content(archive@, name@) == Some(b@),
        r is Some ==> zip_names(archive@) is Some && zip_names(archive@)->0.contains(name@),
{
    let mut zip = zip::ZipArchive::new(std::io::Cursor::new(archive)).ok()?;
    let mut file = zip.by_name(name).ok()?;
    let mut bytes = Vec::new();
    std::io::Read::read_to_end(&mut file, &mut bytes).ok()?;
    Some(bytes)
}

/// The members of a download, or why it is refused.
pub fn members(archive: &[u8], refusal: &str) -> (r: Result<Vec<String>, String>)
    ensures
        r is Ok <==> zip_names(archive@) is Some,
        r matches Ok(v) ==> zip_names(archive@) == Some(texts(v@)),
        r matches Err(e) ==> e@ == refusal@,
{
    match names_in(archive) {
        Some(v) => Ok(v),
        None => Err(refusal.to_owned()),
    }
}

/// True when a file exists with the uncompressed size of a member that exists;
/// `local` is the size of the file. Cheap "is this the same build" check for
/// files whose names carry no version.
pub fn same_size(archive: &[u8], member: &str, local: Option<u64>) -> (r: bool)
    ensures
        r == (local is Some && local == zip_size(archive@, member@)),
{
    match (local, size_in(archive, member)) {
        (Some(a), Some(b)) => a == b,
        _ => false,
    }
}

// ── extraction ─────────────────────────────────────────────────────

/// A member and the path below the game folder that it is written to.
#[derive(Debug)]
pub struct Extract {
    pub member: String,
    pub dest: String,
}

/// An [`Extract`] as characters.
pub struct ExtractView {
    pub member: Seq<char>,
    pub dest: Seq<char>,
}

impl View for Extract {
    type V = ExtractView;

    open spec fn view(&self) -> ExtractView {
        ExtractView { member: self.member@, dest: self.dest@ }
    }
}

pub open spec fn extracts(v: Seq<Extract>) -> Seq<ExtractView> {
    Seq::new(v.len(), |i: int| v[i]@)
}

/// A file to write: its path below the game folder and its contents.
#[derive(Debug)]
pub struct Written {
    pub dest: String,
    pub bytes: Vec<u8>,
}

/// A [`Written`] as characters and bytes.
pub struct WrittenView {
    pub dest: Seq<char>,
    pub bytes: Seq<u8>,
}

impl View for Written {
    type V = WrittenView;

    open spec fn view(&self) -> WrittenView {
        WrittenView { dest: self.dest@, bytes: self.bytes@ }
    }
}

pub open spec fn written(v: Seq<Written>) -> Seq<WrittenView> {
    Seq::new(v.len(), |i: int| v[i]@)
}

/// The files to write, in their order; `failed` is the member that could not
/// be read, before which extraction stopped.
#[derive(Debug)]
pub struct Unpacked {
    pub files: Vec<Written>,
    pub failed: Option<String>,
}

/// An [`Unpacked`] as characters and bytes.
pub struct UnpackedView {
    pub files: Seq<WrittenView>,
    pub failed: Option<Seq<char>>,
}

impl View for Unpacked {
    type V = UnpackedView;

    open spec fn view(&self) -> UnpackedView {
        UnpackedView { files: written(self.files@), failed: opt_text(self.failed) }
    }
}

/// Extracting a plan, member by member until one cannot be read.
pub open spec fn unpacked(archive: Seq<u8>, plan: Seq<ExtractView>) -> UnpackedView
    decreases plan.len(),
{
    if plan.len() == 0 {
        UnpackedView { files: Seq::empty(), failed: None }
    } else {
        let before = unpacked(archive, plan.drop_last());
        if before.failed is Some {
            before
        } else {
            match zip_content(archive, plan.last().member) {
                Some(b) => UnpackedView {
                    files: before.files.push(WrittenView { dest: plan.last().dest, bytes: b }),
                    failed: None,
                },
                None => UnpackedView { files: before.files, failed: Some(plan.last().member) },
            }
        }
    }
}

/// A failure ends the extraction.
proof fn lemma_failed(archive: Seq<u8>, plan: Seq<ExtractView>, k: int)
    requires
        0 <= k <= plan.len(),
        unpacked(archive, plan.take(k)).failed is Some,
    ensures
        unpacked(archive, plan) == unpacked(archive, plan.take(k)),
    decreases plan.len() - k,
{
    if k < plan.len() {
        assert(plan.take(k + 1).drop_last() =~= plan.take(k));
        lemma_failed(archive, plan, k + 1);
    } else {
        assert(plan.take(k) =~= plan);
    }
}

/// Reads what a plan extracts.
pub fn unpack(archive: &[u8], plan: &Vec<Extract>) -> (r: Unpacked)
    ensures
        r@ == unpacked(archive@, extracts(plan@)),
{
    let ghost all = extracts(plan@);
    let mut files: Vec<Written> = Vec::new();
    let mut i: usize = 0;
    assert(all.take(0) =~= Seq::empty());
    assert(written(files@) =~= Seq::empty());
    while i < plan.len()
        invariant
            i <= plan@.len(),
            all == extracts(plan@),
            unpacked(archive@, all.take(i as int)) == (UnpackedView {
                files: written(files@),
                failed: None,
            }),
        decreases plan@.len() - i,
    {
        proof {
            assert(all.take(i + 1).drop_last() =~= all.take(i as int));
            assert(all.take(i + 1).last() == plan@[i as int]@);
        }
        match content_in(archive, plan[i].member.as_str()) {
            Some(bytes) => {
                let w = Written { dest: plan[i].dest.as_str().to_owned(), bytes };
                let ghost was = written(files@);
                files.push(w);
                assert(written(files@) =~= was.push(w@));
            },
            None => {
                proof {
                    lemma_failed(archive@, all, i + 1);
                }
                return Unpacked { files, failed: Some(plan[i].member.as_str().to_owned()) };
            },
        }
        i = i + 1;
    }
    assert(all.take(all.len() as int) =~= all);
    Unpacked { files, failed: None }
}

/// Reads one member of an archive.
pub fn unpack_one(archive: &[u8], member: String, dest: &str) -> (r: Unpacked)
    ensures
        r@ == unpacked(archive@, seq![ExtractView { member: member@, dest: dest@ }]),
{
    let plan: Vec<Extract> = vec![Extract { member, dest: dest.to_owned() }];
    assert(extracts(plan@) =~= seq![ExtractView { member: member@, dest: dest@ }]);
    unpack(archive, &plan)
}

// ── laws ───────────────────────────────────────────────────────────

/// What is written is the start of the plan, in its order: each file has the
/// path of its place in the plan and the contents of its member. Where nothing
/// failed it is the whole plan.
pub proof fn law_unpacking_follows_the_plan(archive: Seq<u8>, plan: Seq<ExtractView>)
    ensures
        unpacked(archive, plan).files.len() <= plan.len(),
        forall|i: int|
            0 <= i < unpacked(archive, plan).files.len() ==> {
                &&& (#[trigger] unpacked(archive, plan).files[i]).dest == plan[i].dest
                &&& zip_content(archive, plan[i].member) == Some(
                    unpacked(archive, plan).files[i].bytes,
                )
            },
        unpacked(archive, plan).failed is None ==> unpacked(archive, plan).files.len()
            == plan.len(),
        unpacked(archive, plan).failed is Some ==> unpacked(archive, plan).files.len()
            < plan.len() && plan[unpacked(archive, plan).files.len() as int].member == unpacked(
            archive,
            plan,
        ).failed->0,
    decreases plan.len(),
{
    if plan.len() > 0 {
        law_unpacking_follows_the_plan(archive, plan.drop_last());
    }
}

/// Extraction ends at a member exactly where that cannot be read; where all can
/// be, nothing fails.
pub proof fn law_only_unreadable_members_fail(archive: Seq<u8>, plan: Seq<ExtractView>)
    ensures
        unpacked(archive, plan).failed matches Some(m) ==> zip_content(archive, m) is None,
        (forall|i: int|
            0 <= i < plan.len() ==> zip_content(archive, (#[trigger] plan[i]).member) is Some)
            ==> unpacked(archive, plan).failed is None,
    decreases plan.len(),
{
    if plan.len() > 0 {
        let u = plan.drop_last();
        law_only_unreadable_members_fail(archive, u);
        if forall|i: int|
            0 <= i < plan.len() ==> zip_content(archive, (#[trigger] plan[i]).member) is Some {
            assert forall|i: int| 0 <= i < u.len() implies zip_content(
                archive,
                (#[trigger] u[i]).member,
            ) is Some by {
                assert(u[i] == plan[i]);
            }
            assert(plan[plan.len() - 1] == plan.last());
        }
    }
}

} // verus!
