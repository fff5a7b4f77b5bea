//! The decisions behind the file-sharing endpoints: which short codes are
//! well formed, where shared files are stored, the links handed out, how a
//! chunked upload proceeds, and the record written for a shared file.

use vstd::prelude::*;
use vstd::string::*;
use crate::code::{is_code_text, code_value, encode34};
use crate::deque::RandomDeque;
use crate::file::{File, new_uuid_v4, MICROS_PER_SECOND, MAX_TIMESTAMP_MICROS};
use crate::text::{int_decimal, i64_to_string, str_eq, uuid_text, uuid_to_string};

verus! {

/// Whether every character of `short_code` is one of
/// `1234567890ABCDEFGHJKLMNPQRSTUVWXYZ`, the characters a short code is written
/// with. The empty string passes.
pub fn is_legal_short_code(short_code: &str) -> (res: bool)
    ensures
        res == is_code_text(short_code@),
{
    let n = short_code.unicode_len();
    let mut i: usize = 0;
    while i < n
        invariant
            n == short_code@.len(),
            i <= n,
            forall|k: int| 0 <= k < i ==> (#[trigger] code_value(short_code@[k])) is Some,
        decreases n - i,
    {
        let c = short_code.get_char(i);
        let v = c as u32;
        let legal = (48 <= v && v <= 57) || (65 <= v && v <= 72) || (74 <= v && v <= 78) || (80 <= v
            && v <= 90);
        if !legal {
            assert(code_value(short_code@[i as int]) is None);
            return false;
        }
        i = i + 1;
    }
    true
}

/// The link to download a shared file: `/file/download?` followed by the query string.
pub fn download_url(query_string: &str) -> (res: String)
    ensures
        res@ == "/file/download?"@ + query_string@,
{
    let mut url = String::from_str("/file/download?");
    url.append(query_string);
    url
}

/// The link to download and decrypt an uploaded file: `/file/decrypt?`
/// followed by the query string.
pub fn decrypt_url(query_string: &str) -> (res: String)
    ensures
        res@ == "/file/decrypt?"@ + query_string@,
{
    let mut url = String::from_str("/file/decrypt?");
    url.append(query_string);
    url
}

/// Where a shared file is stored, relative to the upload directory:
/// `{upload date}/{upload time in microseconds}/{file name}`.
pub fn share_local_path(upload_time: &str, upload_micros: i64, file_name: &str) -> (res: String)
    ensures
        res@ == upload_time@ + "/"@ + int_decimal(upload_micros as int) + "/"@ + file_name@,
{
    let micros = i64_to_string(upload_micros);
    let mut path = upload_time.to_owned();
    path.append("/");
    path.append(micros.as_str());
    path.append("/");
    path.append(file_name);
    path
}

/// The name of the temporary file a chunked upload collects into: `{uuid}.{extension}`.
pub fn tmp_file_name(file_uuid: &str, file_ext: &str) -> (res: String)
    ensures
        res@ == file_uuid@ + "."@ + file_ext@,
{
    let mut name = file_uuid.to_owned();
    name.append(".");
    name.append(file_ext);
    name
}

/// The identifier of a chunked upload: the one the client sent, or a fresh
/// random version-4 UUID, in its hyphenated text, where it sent an empty one.
pub fn resolve_file_uuid(requested: &str) -> (res: String)
    ensures
        requested@.len() > 0 ==> res@ == requested@,
        requested@.len() == 0 ==> exists|id: u128|
            (id >> 76u128) & 0xfu128 == 4u128 && (id >> 62u128) & 0x3u128 == 2u128 && res@
                == #[trigger] uuid_text(id),
{
    if requested.is_empty() {
        let id = new_uuid_v4();
        uuid_to_string(id)
    } else {
        requested.to_owned()
    }
}

/// What to do with one chunk of a chunked upload.
pub struct ChunkPlan {
    /// The name of the temporary file the chunks collect into.
    pub tmp_file_name: String,
    /// The first chunk creates the temporary file; later ones append to it.
    pub create: bool,
    /// The last chunk completes the upload: the file is moved into place and shared.
    pub complete: bool,
    /// The status reported back: 100 while chunks are missing, 200 once complete.
    pub upload_status: u32,
}

/// The plan for one chunk: chunk `"1"` creates the temporary file
/// `{uuid}.{ext}`, any other appends to it; the chunk whose number equals the
/// total completes the upload (status 200), any other leaves it open (status 100).
pub fn plan_chunk(chunks_number: &str, total_number: &str, file_uuid: &str, file_ext: &str) -> (res:
    ChunkPlan)
    ensures
        res.tmp_file_name@ == file_uuid@ + "."@ + file_ext@,
        res.create == (chunks_number@ == "1"@),
        res.complete == (chunks_number@ == total_number@),
        res.upload_status == (if chunks_number@ == total_number@ { 200u32 } else { 100u32 }),
{
    let create = str_eq(chunks_number, "1");
    let complete = str_eq(chunks_number, total_number);
    ChunkPlan {
        tmp_file_name: tmp_file_name(file_uuid, file_ext),
        create,
        complete,
        upload_status: if complete { 200 } else { 100 },
    }
}

/// The record of a newly shared file: a new record named `file_name`, stored at
/// `local_path`, with the next short code from the pool, the download link for
/// `query_string`, and a deletion time `expire_time_second` seconds after
/// `now_micros` (the upload time, microseconds since the epoch). A deletion time
/// past the last instant a date-time can hold is not accepted.
pub fn new_shared_file(
    file_name: &str,
    local_path: &str,
    query_string: &str,
    now_micros: i64,
    expire_time_second: u64,
    codes: &mut RandomDeque,
) -> (res: File)
    requires
        old(codes).codes().len() > 0,
        old(codes).codes()[0] + old(codes).base() <= u32::MAX,
        0 <= now_micros,
        now_micros + expire_time_second * MICROS_PER_SECOND <= MAX_TIMESTAMP_MICROS,
    ensures
        res.name@ == file_name@,
        res.localpath@ == local_path@,
        res.shortcode@ == encode34((old(codes).codes()[0] + old(codes).base()) as nat),
        res.localurl@ == "/file/download?"@ + query_string@,
        res.md5@ == Seq::<char>::empty(),
        res.status@ == Seq::<char>::empty(),
        res.expire_time == 0,
        res.delete_at == now_micros + expire_time_second * MICROS_PER_SECOND,
        final(codes).codes() == old(codes).codes().drop_first(),
        final(codes).base() == old(codes).base(),
        final(codes).initialized() == old(codes).initialized(),
{
    let mut file = File::new();
    file.set_name(file_name);
    file.set_local_path(local_path);
    let short_code = codes.get_random_num();
    file.set_short_code(short_code.as_str());
    let url = download_url(query_string);
    file.set_local_url(url.as_str());
    file.set_delete_time_at(now_micros, expire_time_second);
    file
}

} // verus!
