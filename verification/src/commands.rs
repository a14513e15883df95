//! The command lines zipline hands to its helper tools (`7z`, `tar`, `gzip`,
//! `age`), argument by argument.

use vstd::prelude::*;

use crate::text::{decimal, decimal_string, owned, push_str, strs};

verus! {


/// `prefix` followed by the level's decimal digits.
fn level_flag(prefix: &str, level: u8) -> (r: String)
    ensures
        r@ == prefix@ + decimal(level as nat),
{
    let mut s = owned(prefix);
    push_str(&mut s, decimal_string(level as u64).as_str());
    s
}

/// `v` followed by copies of `names`.
fn append_all(v: &mut Vec<String>, names: &Vec<String>)
    ensures
        strs(final(v)@) == strs(old(v)@) + strs(names@),
{
    let mut k: usize = 0;
    while k < names.len()
        invariant
            k <= names.len(),
            strs(v@) == strs(old(v)@) + strs(names@).take(k as int),
        decreases names.len() - k,
    {
        let ghost before = strs(v@);
        v.push(names[k].clone());
        assert(strs(v@) =~= before.push(names@[k as int]@));
        assert(strs(names@).take(k + 1) =~= strs(names@).take(k as int).push(names@[k as int]@));
        k += 1;
    }
    assert(strs(names@).take(names.len() as int) =~= strs(names@));
}

pub open spec fn spec_seven_zip_pack_args(level: u8, output: Seq<char>, names: Seq<Seq<char>>) -> Seq<Seq<char>> {
    seq!["a"@, "-mhe=on"@, "-mx="@ + decimal(level as nat), "-p"@, "-y"@, "--"@, output] + names
}

/// 7-Zip, run in the sources' folder, adding `names` to `output` at `level`:
/// file names are encrypted too (`-mhe=on`) and the password is asked on the
/// terminal (a bare `-p`).
pub fn seven_zip_pack_args(level: u8, output: &str, names: &Vec<String>) -> (r: Vec<String>)
    ensures
        strs(r@) == spec_seven_zip_pack_args(level, output@, strs(names@)),
{
    let mut v: Vec<String> = Vec::new();
    v.push(owned("a"));
    v.push(owned("-mhe=on"));
    v.push(level_flag("-mx=", level));
    v.push(owned("-p"));
    v.push(owned("-y"));
    v.push(owned("--"));
    v.push(owned(output));
    let ghost head = strs(v@);
    assert(head =~= seq!["a"@, "-mhe=on"@, "-mx="@ + decimal(level as nat), "-p"@, "-y"@, "--"@, output@]);
    append_all(&mut v, names);
    v
}

pub open spec fn spec_zip_pack_args(level: u8, output: Seq<char>, names: Seq<Seq<char>>) -> Seq<Seq<char>> {
    seq!["a"@, "-tzip"@, "-mx="@ + decimal(level as nat), "-y"@, "--"@, output] + names
}

/// 7-Zip, run in the sources' folder, writing a plain zip `output` of `names`
/// at `level`: no password is involved.
pub fn zip_pack_args(level: u8, output: &str, names: &Vec<String>) -> (r: Vec<String>)
    ensures
        strs(r@) == spec_zip_pack_args(level, output@, strs(names@)),
{
    let mut v: Vec<String> = Vec::new();
    v.push(owned("a"));
    v.push(owned("-tzip"));
    v.push(level_flag("-mx=", level));
    v.push(owned("-y"));
    v.push(owned("--"));
    v.push(owned(output));
    let ghost head = strs(v@);
    assert(head =~= seq!["a"@, "-tzip"@, "-mx="@ + decimal(level as nat), "-y"@, "--"@, output@]);
    append_all(&mut v, names);
    v
}

pub open spec fn spec_tar_create_args(parent: Seq<char>, names: Seq<Seq<char>>) -> Seq<Seq<char>> {
    seq!["-c"@, "-C"@, parent, "--"@] + names
}

/// `tar` writing an archive of `names`, taken from `parent`, to its output.
pub fn tar_create_args(parent: &str, names: &Vec<String>) -> (r: Vec<String>)
    ensures
        strs(r@) == spec_tar_create_args(parent@, strs(names@)),
{
    let mut v: Vec<String> = Vec::new();
    v.push(owned("-c"));
    v.push(owned("-C"));
    v.push(owned(parent));
    v.push(owned("--"));
    let ghost head = strs(v@);
    assert(head =~= seq!["-c"@, "-C"@, parent@, "--"@]);
    append_all(&mut v, names);
    v
}

/// `gzip` compressing at `level`.
pub fn gzip_args(level: u8) -> (r: Vec<String>)
    ensures
        strs(r@) == seq!["-"@ + decimal(level as nat)],
{
    let mut v: Vec<String> = Vec::new();
    v.push(level_flag("-", level));
    assert(strs(v@) =~= seq!["-"@ + decimal(level as nat)]);
    v
}

/// `-r` before each recipient.
pub open spec fn recipient_flags(rs: Seq<Seq<char>>) -> Seq<Seq<char>>
    decreases rs.len(),
{
    if rs.len() == 0 {
        Seq::<Seq<char>>::empty()
    } else {
        recipient_flags(rs.drop_last()) + seq!["-r"@, rs.last()]
    }
}

pub open spec fn spec_age_lock_args(output: Seq<char>, recipients: Option<Seq<Seq<char>>>) -> Seq<Seq<char>> {
    match recipients {
        None => seq!["-o"@, output, "-p"@],
        Some(rs) => seq!["-o"@, output] + recipient_flags(rs),
    }
}

/// `age` encrypting its input to `output`: with a passphrase typed on the
/// terminal (`-p`), or for each of `recipients`.
pub fn age_lock_args(output: &str, recipients: Option<&Vec<String>>) -> (r: Vec<String>)
    ensures
        strs(r@) == spec_age_lock_args(
            output@,
            match recipients {
                None => None,
                Some(rs) => Some(strs(rs@)),
            },
        ),
{
    let mut v: Vec<String> = Vec::new();
    v.push(owned("-o"));
    v.push(owned(output));
    match recipients {
        None => {
            v.push(owned("-p"));
            assert(strs(v@) =~= seq!["-o"@, output@, "-p"@]);
        },
        Some(rs) => {
            let ghost head = seq!["-o"@, output@];
            assert(strs(v@) =~= head);
            let mut k: usize = 0;
            assert(strs(rs@).take(0) =~= Seq::<Seq<char>>::empty());
            while k < rs.len()
                invariant
                    k <= rs.len(),
                    strs(v@) == head + recipient_flags(strs(rs@).take(k as int)),
                decreases rs.len() - k,
            {
                let ghost before = strs(v@);
                v.push(owned("-r"));
                v.push(rs[k].clone());
                let ghost t = strs(rs@).take(k + 1);
                assert(t.drop_last() =~= strs(rs@).take(k as int));
                assert(t.last() == rs@[k as int]@);
                assert(strs(v@) =~= before + seq!["-r"@, rs@[k as int]@]);
                assert(strs(v@) =~= head + recipient_flags(t));
                k += 1;
            }
            assert(strs(rs@).take(rs.len() as int) =~= strs(rs@));
        },
    }
    v
}

pub open spec fn spec_age_unlock_args(tarball: Seq<char>, archive: Seq<char>, identity: Option<Seq<char>>) -> Seq<
    Seq<char>,
> {
    match identity {
        None => seq!["-d"@, "-o"@, tarball, archive],
        Some(id) => seq!["-d"@, "-i"@, id, "-o"@, tarball, archive],
    }
}

/// `age` decrypting `archive` into `tarball`: with the passphrase typed on the
/// terminal, or with an `identity` key file.
pub fn age_unlock_args(tarball: &str, archive: &str, identity: Option<&str>) -> (r: Vec<String>)
    ensures
        strs(r@) == spec_age_unlock_args(
            tarball@,
            archive@,
            match identity {
                None => None,
                Some(id) => Some(id@),
            },
        ),
{
    let mut v: Vec<String> = Vec::new();
    v.push(owned("-d"));
    match identity {
        Some(id) => {
            v.push(owned("-i"));
            v.push(owned(id));
        },
        None => {},
    }
    v.push(owned("-o"));
    v.push(owned(tarball));
    v.push(owned(archive));
    match identity {
        Some(id) => assert(strs(v@) =~= seq!["-d"@, "-i"@, id@, "-o"@, tarball@, archive@]),
        None => assert(strs(v@) =~= seq!["-d"@, "-o"@, tarball@, archive@]),
    }
    v
}

/// `tar` unpacking the gzipped or plain `tarball` into `staging`.
pub fn tar_extract_args(staging: &str, tarball: &str) -> (r: Vec<String>)
    ensures
        strs(r@) == seq!["-x"@, "-C"@, staging@, "-f"@, tarball@],
{
    let v = vec![owned("-x"), owned("-C"), owned(staging), owned("-f"), owned(tarball)];
    assert(strs(v@) =~= seq!["-x"@, "-C"@, staging@, "-f"@, tarball@]);
    v
}

/// `tar` listing the member names of `tarball`.
pub fn tar_list_args(tarball: &str) -> (r: Vec<String>)
    ensures
        strs(r@) == seq!["-tf"@, tarball@],
{
    let v = vec![owned("-tf"), owned(tarball)];
    assert(strs(v@) =~= seq!["-tf"@, tarball@]);
    v
}

/// 7-Zip listing `archive` in its technical (`-slt`) form.
pub fn seven_zip_list_args(archive: &str) -> (r: Vec<String>)
    ensures
        strs(r@) == seq!["l"@, "-slt"@, "--"@, archive@],
{
    let v = vec![owned("l"), owned("-slt"), owned("--"), owned(archive)];
    assert(strs(v@) =~= seq!["l"@, "-slt"@, "--"@, archive@]);
    v
}

/// 7-Zip extracting `archive` into `staging`. No `-p`: with an empty value 7z
/// assumes an empty password and fails before prompting, so it is left to ask.
pub fn seven_zip_extract_args(staging: &str, archive: &str) -> (r: Vec<String>)
    ensures
        strs(r@) == seq!["x"@, "-y"@, "-o"@ + staging@, "--"@, archive@],
{
    let mut out = owned("-o");
    push_str(&mut out, staging);
    let v = vec![owned("x"), owned("-y"), out, owned("--"), owned(archive)];
    assert(strs(v@) =~= seq!["x"@, "-y"@, "-o"@ + staging@, "--"@, archive@]);
    v
}

} // verus!
