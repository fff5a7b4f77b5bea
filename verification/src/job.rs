//! The decisions of the scheduled jobs: the tick counter they keep, giving back
//! the short codes of expired files, and the MD5 text recorded for a stored file.

use vstd::prelude::*;
use md5::{Digest, Md5};
use crate::code::{decodable, decode34, encode34};
use crate::deque::returned_code_restores_number;
use crate::deque::RandomDeque;
use crate::file::{File, same_except_status, same_except_md5};
use crate::text::hex_digit;

verus! {

/// The counter a job records on a tick, given what its data held under
/// `"counter"` before: nothing (`None`) gives 0; a value that is not an unsigned
/// integer (`Some(None)`) counts as 0, so gives 1; an unsigned `v` gives `v + 1`.
pub fn next_counter(previous: Option<Option<u64>>) -> (res: u64)
    requires
        previous matches Some(Some(v)) ==> v < u64::MAX,
    ensures
        res == (match previous {
            None => 0,
            Some(None) => 1,
            Some(Some(v)) => v + 1,
        }),
{
    match previous {
        None => 0,
        Some(None) => 1,
        Some(Some(v)) => v + 1,
    }
}

/// The MD5 digest of a byte string (16 bytes), as the md-5 crate computes it.
pub uninterp spec fn md5_of(data: Seq<u8>) -> Seq<u8>;

/// The MD5 digest of `data` (md-5's `Md5::digest`).
/// Trusted: the result is the digest of exactly `data`, 16 bytes long.
#[verifier::external_body]
fn md5_digest(data: &[u8]) -> (res: Vec<u8>)
    ensures
        res@ == md5_of(data@),
        res@.len() == 16,
{
    Md5::digest(data).to_vec()
}

/// Lowercase hexadecimal text of a byte string, two digits per byte, high digit first.
pub open spec fn hex_lower(bytes: Seq<u8>) -> Seq<char>
    decreases bytes.len(),
{
    if bytes.len() == 0 {
        seq![]
    } else {
        hex_lower(bytes.drop_last()) + seq![
            hex_digit((bytes.last() / 16) as int),
            hex_digit((bytes.last() % 16) as int),
        ]
    }
}

/// Lowercase hexadecimal text of `bytes` (faster_hex's `hex_string`).
/// Trusted: two digits per byte from `0123456789abcdef`, high digit first.
#[verifier::external_body]
fn hex_string(bytes: &[u8]) -> (res: String)
    ensures
        res@ == hex_lower(bytes@),
{
    faster_hex::hex_string(bytes)
}

/// The MD5 text recorded for a stored file: the lowercase hex of the MD5 digest of its content.
pub fn file_md5_hex(content: &[u8]) -> (res: String)
    ensures
        res@ == hex_lower(md5_of(content@)),
        res@.len() == 32,
{
    let digest = md5_digest(content);
    let text = hex_string(digest.as_slice());
    proof {
        lemma_hex_lower_len(md5_of(content@));
    }
    text
}

proof fn lemma_hex_lower_len(bytes: Seq<u8>)
    ensures
        hex_lower(bytes).len() == 2 * bytes.len(),
    decreases bytes.len(),
{
    if bytes.len() > 0 {
        lemma_hex_lower_len(bytes.drop_last());
    }
}

/// Records the MD5 text of the stored file's content on its record.
pub fn fill_md5(file: &mut File, content: &[u8])
    ensures
        final(file).md5@ == hex_lower(md5_of(content@)),
        same_except_md5(*old(file), *final(file)),
{
    let md5_text = file_md5_hex(content);
    file.set_md5(md5_text.as_str());
}

/// The pool numbers that the short codes of `files` stand for, in order.
pub open spec fn returned_numbers(files: Seq<File>, base: u32) -> Seq<u32> {
    files.map_values(|f: File| (decode34(f.shortcode@) - base) as u32)
}

/// Every file's short code can be given back to a pool with offset `base`.
pub open spec fn codes_returnable(files: Seq<File>, base: u32) -> bool {
    forall|k: int|
        0 <= k < files.len() ==> decodable(#[trigger] files[k].shortcode@) && decode34(
            files[k].shortcode@,
        ) >= base
}

/// Retires expired files: gives each file's short code back to the pool (in
/// order) and marks each file inactive; the records come back in the same order.
pub fn recycle_expired(files: Vec<File>, codes: &mut RandomDeque) -> (res: Vec<File>)
    requires
        codes_returnable(files@, old(codes).base()),
    ensures
        final(codes).codes() == old(codes).codes() + returned_numbers(files@, old(codes).base()),
        final(codes).codes().len() == old(codes).codes().len() + files@.len(),
        forall|k: int|
            0 <= k < old(codes).codes().len() ==> #[trigger] final(codes).codes()[k] == old(
                codes,
            ).codes()[k],
        forall|k: int|
            0 <= k < files@.len() ==> final(codes).codes()[old(codes).codes().len() + k] == decode34(
                #[trigger] files@[k].shortcode@,
            ) - old(codes).base(),
        final(codes).base() == old(codes).base(),
        final(codes).initialized() == old(codes).initialized(),
        res@.len() == files@.len(),
        forall|k: int|
            0 <= k < res@.len() ==> (#[trigger] res@[k]).status@ == "unactive"@ && same_except_status(
                files@[k],
                res@[k],
            ),
{
    let ghost orig = files@;
    let ghost start = codes.codes();
    let ghost base = codes.base();
    let mut rest = files;
    let mut done: Vec<File> = Vec::new();
    let n = rest.len();
    let mut i: usize = 0;
    while i < n
        invariant
            n == orig.len(),
            i <= n,
            rest@ == orig.skip(i as int),
            done@.len() == i,
            codes_returnable(orig, base),
            codes.base() == base,
            codes.initialized() == old(codes).initialized(),
            start == old(codes).codes(),
            base == old(codes).base(),
            codes.codes() == start + returned_numbers(orig.take(i as int), base),
            forall|k: int|
                0 <= k < i ==> (#[trigger] done@[k]).status@ == "unactive"@ && same_except_status(
                    orig[k],
                    done@[k],
                ),
        decreases n - i,
    {
        let mut file = rest.remove(0);
        assert(file == orig[i as int]);
        assert(decodable(orig[i as int].shortcode@));
        codes.push_random_num(file.shortcode.as_str());
        file.set_unactive();
        done.push(file);
        assert(orig.take(i + 1) =~= orig.take(i as int).push(orig[i as int]));
        assert(returned_numbers(orig.take(i + 1), base) =~= returned_numbers(orig.take(i as int), base).push(
            (decode34(orig[i as int].shortcode@) - base) as u32,
        ));
        assert(codes.codes() =~= start + returned_numbers(orig.take(i + 1), base));
        i = i + 1;
        assert(rest@ =~= orig.skip(i as int));
    }
    assert(orig.take(n as int) =~= orig);
    proof {
        retiring_returns_every_number(orig, base);
    }
    done
}

/// Law: retiring files gives back one pool number per file, in the files'
/// order: the number of each file's short code less the offset, whatever the
/// file's other fields hold.
pub proof fn retiring_returns_every_number(files: Seq<File>, base: u32)
    requires
        codes_returnable(files, base),
    ensures
        returned_numbers(files, base).len() == files.len(),
        forall|k: int|
            0 <= k < files.len() ==> returned_numbers(files, base)[k] == decode34(
                #[trigger] files[k].shortcode@,
            ) - base,
{
    assert forall|k: int| 0 <= k < files.len() implies returned_numbers(files, base)[k] == decode34(
        #[trigger] files[k].shortcode@,
    ) - base by {
        assert(decodable(files[k].shortcode@) && decode34(files[k].shortcode@) >= base);
    }
}

/// Law: files whose short codes were handed out for the pool numbers `numbers`
/// (each code the base-34 code of its number plus the offset) give exactly
/// those numbers back, in order, when retired.
pub proof fn retired_codes_restore_numbers(files: Seq<File>, numbers: Seq<u32>, base: u32)
    requires
        files.len() == numbers.len(),
        forall|k: int|
            0 <= k < files.len() ==> numbers[k] + base <= u32::MAX && (#[trigger] files[k]).shortcode@
                == encode34((numbers[k] + base) as nat),
    ensures
        codes_returnable(files, base),
        returned_numbers(files, base) == numbers,
{
    assert forall|k: int| 0 <= k < files.len() implies decodable(#[trigger] files[k].shortcode@)
        && decode34(files[k].shortcode@) >= base && decode34(files[k].shortcode@) - base == numbers[k] by {
        assert(files[k].shortcode@ == encode34((numbers[k] + base) as nat));
        returned_code_restores_number(numbers[k], base);
    }
    retiring_returns_every_number(files, base);
    assert(returned_numbers(files, base) =~= numbers);
}

} // verus!
