//! Zip archives: the program in one of them, by the `zip` crate.

use crate::text::{
    from_chars, lowered, one_of, same, to_chars, to_lowercase, trim_end_of, trimmed_end,
};
use std::io::Read;
use vstd::prelude::*;

verus! {

// ---------------- archives ----------------

/// A reader over bytes in memory.
#[verifier::external_type_specification]
#[verifier::external_body]
#[verifier::reject_recursive_types(T)]
pub struct ExCursor<T>(std::io::Cursor<T>);

/// An archive of the `zip` crate.
#[verifier::external_type_specification]
#[verifier::external_body]
#[verifier::reject_recursive_types(R)]
pub struct ExZipArchive<R>(zip::ZipArchive<R>);

/// A member of an archive: its name and its data, or what is wrong with either.
pub enum Slot {
    /// The member cannot be opened.
    Broken(Seq<char>),
    /// The member can be opened; its data can be read, or not.
    Member(Seq<char>, Result<Seq<u8>, Seq<char>>),
}

/// What the bytes of an archive hold, or what is wrong with them.
pub uninterp spec fn archive_in(bytes: Seq<u8>) -> Result<Seq<Slot>, Seq<char>>;

/// What an archive holds.
pub uninterp spec fn slots_of(a: zip::ZipArchive<std::io::Cursor<Vec<u8>>>) -> Seq<Slot>;

/// Calls `zip::ZipArchive::new`. What an archive holds is a function of its
/// bytes, as is what is said of bytes that are none.
#[verifier::external_body]
fn open_archive(bytes: Vec<u8>) -> (r: Result<
    zip::ZipArchive<std::io::Cursor<Vec<u8>>>,
    String,
>)
    ensures
        match r {
            Ok(a) => archive_in(bytes@) == ok_slots(slots_of(a)),
            Err(e) => archive_in(bytes@) == err_slots(e@),
        },
{
    zip::ZipArchive::new(std::io::Cursor::new(bytes)).map_err(|e| e.to_string())
}

/// Calls `zip::ZipArchive::len`, which counts the members.
#[verifier::external_body]
fn archive_len(a: &zip::ZipArchive<std::io::Cursor<Vec<u8>>>) -> (r: usize)
    ensures
        r == slots_of(*a).len(),
{
    a.len()
}

/// Calls `zip::ZipArchive::by_index` and takes the name of the member. The
/// archive holds the same afterwards.
#[verifier::external_body]
fn member_name(a: &mut zip::ZipArchive<std::io::Cursor<Vec<u8>>>, i: usize) -> (r: Result<
    String,
    String,
>)
    requires
        i < slots_of(*old(a)).len(),
    ensures
        slots_of(*final(a)) == slots_of(*old(a)),
        match r {
            Ok(n) => slots_of(*old(a))[i as int] is Member && slots_of(*old(a))[i as int]->Member_0
                == n@,
            Err(e) => slots_of(*old(a))[i as int] == Slot::Broken(e@),
        },
{
    a.by_index(i).map(|m| m.name().to_string()).map_err(|e| e.to_string())
}

/// Calls `zip::ZipArchive::by_index` and reads the member to its end. The
/// archive holds the same afterwards.
#[verifier::external_body]
fn member_data(a: &mut zip::ZipArchive<std::io::Cursor<Vec<u8>>>, i: usize) -> (r: Result<
    Vec<u8>,
    String,
>)
    requires
        i < slots_of(*old(a)).len(),
    ensures
        slots_of(*final(a)) == slots_of(*old(a)),
        match r {
            Ok(d) => data_in(slots_of(*old(a))[i as int]) == ok_data(d@),
            Err(e) => data_in(slots_of(*old(a))[i as int]) == err_data(e@),
        },
{
    let mut member = a.by_index(i).map_err(|e| e.to_string())?;
    let mut data = Vec::new();
    member.read_to_end(&mut data).map_err(|e| e.to_string())?;
    Ok(data)
}

/// An archive that can be read.
pub open spec fn ok_slots(s: Seq<Slot>) -> Result<Seq<Slot>, Seq<char>> {
    Ok(s)
}

/// No archive, for this reason.
pub open spec fn err_slots(e: Seq<char>) -> Result<Seq<Slot>, Seq<char>> {
    Err(e)
}

/// Data that can be read.
pub open spec fn ok_data(d: Seq<u8>) -> Result<Seq<u8>, Seq<char>> {
    Ok(d)
}

/// No data, for this reason.
pub open spec fn err_data(e: Seq<char>) -> Result<Seq<u8>, Seq<char>> {
    Err(e)
}

/// The data of a member, or what is wrong with it.
pub open spec fn data_in(s: Slot) -> Result<Seq<u8>, Seq<char>> {
    match s {
        Slot::Broken(e) => Err(e),
        Slot::Member(_, d) => d,
    }
}

// ---------------- the program in an archive ----------------

/// A member is a directory if its name ends in a separator.
pub open spec fn is_dir_name(name: Seq<char>) -> bool {
    name.len() > 0 && (name.last() == '/' || name.last() == '\\')
}

fn dir_name(name: &str) -> (r: bool)
    ensures
        r == is_dir_name(name@),
{
    let v = to_chars(name);
    let n = v.len();
    n > 0 && (v[n - 1] == '/' || v[n - 1] == '\\')
}

/// What stands behind the last slash or backslash.
pub open spec fn base_of(s: Seq<char>) -> Seq<char>
    decreases s.len(),
{
    if s.len() == 0 || s.last() == '/' || s.last() == '\\' {
        seq![]
    } else {
        base_of(s.drop_last()).push(s.last())
    }
}

/// The base name of a member of an archive, by its name in lowercase.
pub open spec fn member_base(lower: Seq<char>) -> Seq<char> {
    base_of(trimmed_end(lower, one_of(seq!['/', '\\'])))
}

/// The base name of a member of an archive, by its name in lowercase.
pub fn member_base_name(lower: &str) -> (r: String)
    ensures
        r@ == member_base(lower@),
{
    let set = ['/', '\\'];
    assert(set@ =~= seq!['/', '\\']);
    let t = trim_end_of(lower, &set);
    let v = to_chars(t.as_str());
    let total = v.len();
    let mut lo: usize = total;
    assert(v@.take(total as int) =~= v@);
    assert(v@.subrange(total as int, total as int) =~= Seq::<char>::empty());
    assert(base_of(v@) =~= base_of(v@.take(lo as int)) + v@.subrange(lo as int, total as int));
    while lo > 0 && v[lo - 1] != '/' && v[lo - 1] != '\\'
        invariant
            total == v@.len(),
            lo <= total,
            base_of(v@) == base_of(v@.take(lo as int)) + v@.subrange(lo as int, total as int),
        decreases lo,
    {
        let ghost t = v@.take(lo as int);
        assert(t.drop_last() =~= v@.take(lo - 1));
        assert(t.last() == v@[lo - 1]);
        assert(base_of(t) == base_of(v@.take(lo - 1)).push(v@[lo - 1]));
        assert(base_of(v@.take(lo - 1)).push(v@[lo - 1]) + v@.subrange(lo as int, total as int)
            =~= base_of(v@.take(lo - 1)) + v@.subrange(lo - 1, total as int));
        lo -= 1;
    }
    assert(base_of(v@.take(lo as int)) =~= Seq::<char>::empty());
    let r = from_chars(&v, lo, total);
    assert(r@ =~= base_of(v@));
    r
}

/// A member with the lowercase base name `base` is the program `name`.
pub open spec fn is_program(base: Seq<char>, name: Seq<char>) -> bool {
    base == name || base == name + ".exe"@
}

/// A member of an archive is the program that is looked for. Only the base name
/// is ever considered and the destination is a fixed path, so a crafted archive
/// cannot steer the write elsewhere.
pub open spec fn is_wanted(member: Seq<char>, name: Seq<char>) -> bool {
    !is_dir_name(member) && is_program(member_base(lowered(member)), name)
}

/// Whether a member of an archive with the lowercase name `lower` has the base
/// name of a program.
pub fn program_member(lower: &str, name: &str) -> (r: bool)
    ensures
        r == is_program(member_base(lower@), name@),
{
    let base = member_base_name(lower);
    let mut exe = name.to_owned();
    exe.append(".exe");
    same(base.as_str(), name) || same(base.as_str(), exe.as_str())
}

/// What is found for a program among the members from the `i`-th on: the data
/// of the first one wanted, unless one before it is broken.
pub open spec fn found_from(s: Seq<Slot>, name: Seq<char>, i: int) -> Result<Seq<u8>, Seq<char>>
    decreases s.len() - i,
{
    if i < 0 || i >= s.len() {
        Err(name + " not found in the ZIP"@)
    } else {
        match s[i] {
            Slot::Broken(e) => Err(e),
            Slot::Member(n, d) => if is_wanted(n, name) {
                d
            } else {
                found_from(s, name, i + 1)
            },
        }
    }
}

/// What is found for a program in the bytes of an archive.
pub open spec fn found_in(a: Result<Seq<Slot>, Seq<char>>, name: Seq<char>) -> Result<
    Seq<u8>,
    Seq<char>,
> {
    match a {
        Ok(s) => found_from(s, name, 0),
        Err(e) => Err(e),
    }
}

/// Extracts the member named `name`(.exe) from the bytes of a zip archive.
pub fn extract_named(bytes: Vec<u8>, name: &str) -> (r: Result<Vec<u8>, String>)
    ensures
        match r {
            Ok(d) => found_in(archive_in(bytes@), name@) == ok_data(d@),
            Err(e) => found_in(archive_in(bytes@), name@) == err_data(e@),
        },
{
    let mut a = match open_archive(bytes) {
        Ok(a) => a,
        Err(e) => return Err(e),
    };
    let n = archive_len(&a);
    let ghost s = slots_of(a);
    let mut i: usize = 0;
    while i < n
        invariant
            n == s.len(),
            i <= n,
            slots_of(a) == s,
            archive_in(bytes@) == ok_slots(s),
            found_from(s, name@, 0) == found_from(s, name@, i as int),
        decreases n - i,
    {
        let member = match member_name(&mut a, i) {
            Ok(m) => m,
            Err(e) => return Err(e),
        };
        if !dir_name(member.as_str()) && program_member(to_lowercase(member.as_str()).as_str(), name) {
            return member_data(&mut a, i);
        }
        i += 1;
    }
    let mut out = name.to_owned();
    out.append(" not found in the ZIP");
    Err(out)
}

// ---------------- laws ----------------

/// The `k`-th member is wanted for a program and has this data.
pub open spec fn is_found_at(s: Seq<Slot>, name: Seq<char>, k: int, data: Seq<u8>) -> bool {
    &&& 0 <= k < s.len()
    &&& s[k] is Member
    &&& is_wanted(s[k]->Member_0, name)
    &&& s[k]->Member_1 == ok_data(data)
}

proof fn lemma_found(s: Seq<Slot>, name: Seq<char>, data: Seq<u8>, i: int)
    requires
        0 <= i,
        found_from(s, name, i) == ok_data(data),
    ensures
        exists|k: int| is_found_at(s, name, k, data),
    decreases s.len() - i,
{
    if i < s.len() {
        match s[i] {
            Slot::Broken(_) => {},
            Slot::Member(n, _) => {
                if is_wanted(n, name) {
                    assert(is_found_at(s, name, i, data));
                } else {
                    lemma_found(s, name, data, i + 1);
                }
            },
        }
    }
}

/// What is extracted is the data of a member that is no directory and has the
/// base name of the program.
pub proof fn a_program_comes_from_its_own_member(s: Seq<Slot>, name: Seq<char>, data: Seq<u8>)
    requires
        found_from(s, name, 0) == ok_data(data),
    ensures
        exists|k: int| is_found_at(s, name, k, data),
{
    lemma_found(s, name, data, 0);
}

/// The base name of a member never holds a separator, so it cannot lead out of
/// the directory it is written to.
pub proof fn a_base_name_is_one_name(s: Seq<char>)
    ensures
        !base_of(s).contains('/'),
        !base_of(s).contains('\\'),
    decreases s.len(),
{
    if s.len() > 0 && s.last() != '/' && s.last() != '\\' {
        a_base_name_is_one_name(s.drop_last());
        let b = base_of(s.drop_last());
        assert forall|c: char| base_of(s).contains(c) implies b.contains(c) || c == s.last() by {
            let i = choose|i: int| 0 <= i < base_of(s).len() && base_of(s)[i] == c;
            if i < b.len() {
                assert(b[i] == c);
            }
        }
    }
}

proof fn lemma_found_at(s: Seq<Slot>, name: Seq<char>, at: int, k: int)
    requires
        0 <= at <= k <= s.len(),
        forall|j: int|
            at <= j < k ==> (#[trigger] s[j]) is Member && !is_wanted(s[j]->Member_0, name),
    ensures
        found_from(s, name, at) == found_from(s, name, k),
    decreases k - at,
{
    if at < k {
        lemma_found_at(s, name, at + 1, k);
        assert(s[at] is Member);
    }
}

/// The first member that is the program is the one that is taken, and an
/// archive without one says so.
pub proof fn the_first_member_of_the_name_is_taken(s: Seq<Slot>, name: Seq<char>, k: int)
    requires
        0 <= k <= s.len(),
        forall|j: int|
            0 <= j < k ==> (#[trigger] s[j]) is Member && !is_wanted(s[j]->Member_0, name),
    ensures
        k < s.len() && s[k] is Member && is_wanted(s[k]->Member_0, name) ==> found_from(s, name, 0)
            == s[k]->Member_1,
        k < s.len() && s[k] is Broken ==> found_from(s, name, 0) == err_data(s[k]->Broken_0),
        k == s.len() ==> found_from(s, name, 0) == err_data(name + " not found in the ZIP"@),
{
    lemma_found_at(s, name, 0, k);
}

proof fn lemma_base(dir: Seq<char>, b: Seq<char>)
    requires
        !b.contains('/') && !b.contains('\\'),
    ensures
        base_of(dir.push('/') + b) == b,
        base_of(dir.push('\\') + b) == b,
        base_of(b) == b,
    decreases b.len(),
{
    let x = dir.push('/') + b;
    let y = dir.push('\\') + b;
    if b.len() == 0 {
        assert(x.last() == '/' && y.last() == '\\');
        assert(base_of(x) =~= b && base_of(y) =~= b && base_of(b) =~= b);
    } else {
        let c = b.drop_last();
        assert(b.last() == b[b.len() - 1]);
        assert(!c.contains('/') && !c.contains('\\')) by {
            assert forall|i: int| 0 <= i < c.len() implies #[trigger] c[i] == b[i] by {}
            if c.contains('/') {
                let i = choose|i: int| 0 <= i < c.len() && c[i] == '/';
                assert(b[i] == '/');
            }
            if c.contains('\\') {
                let i = choose|i: int| 0 <= i < c.len() && c[i] == '\\';
                assert(b[i] == '\\');
            }
        }
        lemma_base(dir, c);
        assert(x.drop_last() =~= dir.push('/') + c);
        assert(y.drop_last() =~= dir.push('\\') + c);
        assert(c.push(b.last()) =~= b);
    }
}

/// A member is told by its name alone, in whatever folder it stands: it is the
/// program where that is the name of it, or the name with `.exe` behind it. A
/// folder is no program.
pub proof fn a_program_is_told_by_its_base_name(dir: Seq<char>, b: Seq<char>, name: Seq<char>)
    requires
        b.len() > 0,
        !b.contains('/') && !b.contains('\\'),
    ensures
        member_base(dir.push('/') + b) == b,
        member_base(dir.push('\\') + b) == b,
        member_base(b) == b,
        is_program(b, name) <==> b == name || b == name + ".exe"@,
        !is_wanted(dir.push('/'), name) && !is_wanted(dir.push('\\'), name),
{
    lemma_base(dir, b);
    let sep = seq!['/', '\\'];
    assert(b.last() == b[b.len() - 1]);
    assert(!one_of(sep)(b.last())) by {
        assert(sep[0] == '/' && sep[1] == '\\');
        if one_of(sep)(b.last()) {
            assert(b.contains(b.last()));
        }
    }
    let x = dir.push('/') + b;
    let y = dir.push('\\') + b;
    assert(x.last() == b.last() && y.last() == b.last());
    assert(trimmed_end(x, one_of(sep)) == x);
    assert(trimmed_end(y, one_of(sep)) == y);
    assert(trimmed_end(b, one_of(sep)) == b);
}

} // verus!
