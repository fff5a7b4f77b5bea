//! The record kept for each shared file.

use vstd::prelude::*;
use vstd::string::*;

verus! {

/// The latest instant the clock can report, in microseconds since the Unix
/// epoch (the end of the year 262142, the last instant a `chrono` date-time holds).
pub const MAX_TIMESTAMP_MICROS: i64 = 8_210_266_876_799_999_999;

/// The number of microseconds in a second.
pub const MICROS_PER_SECOND: i64 = 1_000_000;

/// A fresh random version-4 UUID as a 128-bit number (zino-core's `Uuid::new_v4`,
/// which is the uuid crate's, read with `as_u128`).
/// Trusted: the version field (bits 76..80) is 4 and the variant field
/// (bits 62..64) is `0b10`, as `new_v4` sets them; the other bits are random.
#[verifier::external_body]
pub(crate) fn new_uuid_v4() -> (id: u128)
    ensures
        (id >> 76u128) & 0xfu128 == 4u128,
        (id >> 62u128) & 0x3u128 == 2u128,
{
    zino_core::Uuid::new_v4().as_u128()
}

/// The current time in microseconds since the Unix epoch (zino-core's
/// `DateTime::now`, read with `timestamp_micros`).
/// Trusted: `DateTime::now` is chrono's `Local::now`, which reads `Utc::now`; that
/// only returns instants from the epoch on (it panics on a clock set before it)
/// that a `chrono` date-time can hold. Which instant is left open.
#[verifier::external_body]
fn now_micros() -> (t: i64)
    ensures
        0 <= t <= MAX_TIMESTAMP_MICROS,
{
    zino_core::datetime::DateTime::now().timestamp_micros()
}

/// The record of a shared file. Times are microseconds since the Unix epoch.
pub struct File {
    pub id: u128,
    pub name: String,
    pub shortcode: String,
    pub md5: String,
    pub status: String,
    pub localurl: String,
    pub localpath: String,
    pub expire_time: u64,
    pub created_at: i64,
    pub updated_at: i64,
    pub delete_at: i64,
}

/// `b` agrees with `a` on every field but `shortcode`.
pub open spec fn same_except_shortcode(a: File, b: File) -> bool {
    &&& a.id == b.id && a.name == b.name && a.md5 == b.md5 && a.status == b.status
    &&& a.localurl == b.localurl && a.localpath == b.localpath && a.expire_time == b.expire_time
    &&& a.created_at == b.created_at && a.updated_at == b.updated_at && a.delete_at == b.delete_at
}

/// `b` agrees with `a` on every field but `name`.
pub open spec fn same_except_name(a: File, b: File) -> bool {
    &&& a.id == b.id && a.shortcode == b.shortcode && a.md5 == b.md5 && a.status == b.status
    &&& a.localurl == b.localurl && a.localpath == b.localpath && a.expire_time == b.expire_time
    &&& a.created_at == b.created_at && a.updated_at == b.updated_at && a.delete_at == b.delete_at
}

/// `b` agrees with `a` on every field but `md5`.
pub open spec fn same_except_md5(a: File, b: File) -> bool {
    &&& a.id == b.id && a.name == b.name && a.shortcode == b.shortcode && a.status == b.status
    &&& a.localurl == b.localurl && a.localpath == b.localpath && a.expire_time == b.expire_time
    &&& a.created_at == b.created_at && a.updated_at == b.updated_at && a.delete_at == b.delete_at
}

/// `b` agrees with `a` on every field but `localurl`.
pub open spec fn same_except_localurl(a: File, b: File) -> bool {
    &&& a.id == b.id && a.name == b.name && a.shortcode == b.shortcode && a.md5 == b.md5
    &&& a.status == b.status && a.localpath == b.localpath && a.expire_time == b.expire_time
    &&& a.created_at == b.created_at && a.updated_at == b.updated_at && a.delete_at == b.delete_at
}

/// `b` agrees with `a` on every field but `localpath`.
pub open spec fn same_except_localpath(a: File, b: File) -> bool {
    &&& a.id == b.id && a.name == b.name && a.shortcode == b.shortcode && a.md5 == b.md5
    &&& a.status == b.status && a.localurl == b.localurl && a.expire_time == b.expire_time
    &&& a.created_at == b.created_at && a.updated_at == b.updated_at && a.delete_at == b.delete_at
}

/// `b` agrees with `a` on every field but `status`.
pub open spec fn same_except_status(a: File, b: File) -> bool {
    &&& a.id == b.id && a.name == b.name && a.shortcode == b.shortcode && a.md5 == b.md5
    &&& a.localurl == b.localurl && a.localpath == b.localpath && a.expire_time == b.expire_time
    &&& a.created_at == b.created_at && a.updated_at == b.updated_at && a.delete_at == b.delete_at
}

/// `b` agrees with `a` on every field but `delete_at`.
pub open spec fn same_except_delete_at(a: File, b: File) -> bool {
    &&& a.id == b.id && a.name == b.name && a.shortcode == b.shortcode && a.md5 == b.md5
    &&& a.status == b.status && a.localurl == b.localurl && a.localpath == b.localpath
    &&& a.expire_time == b.expire_time && a.created_at == b.created_at && a.updated_at == b.updated_at
}

/// The instant `secs` seconds after `now` (both in the units the record keeps
/// times in: microseconds, and seconds).
pub open spec fn deadline(now: int, secs: int) -> int {
    now + secs * MICROS_PER_SECOND
}

/// Law: a deletion time is set exactly when the instant it names can be held:
/// for every clock reading and span, `set_delete_time_from` succeeds if and
/// only if the reading plus the span stays within the last instant, in
/// particular for every span up to the room left after the reading; and a
/// longer span never succeeds where a shorter one fails.
pub proof fn delete_time_set_when_it_fits(now: int, secs: int, longer: int)
    requires
        0 <= now <= MAX_TIMESTAMP_MICROS,
        0 <= secs <= longer,
    ensures
        (deadline(now, secs) <= MAX_TIMESTAMP_MICROS) == (secs * 1_000_000 <= MAX_TIMESTAMP_MICROS - now),
        deadline(now, longer) <= MAX_TIMESTAMP_MICROS ==> deadline(now, secs) <= MAX_TIMESTAMP_MICROS,
        deadline(now, secs) >= now,
{
    assert(secs * 1_000_000 <= longer * 1_000_000) by (nonlinear_arith)
        requires
            secs <= longer,
    ;
    assert(secs * 1_000_000 >= 0) by (nonlinear_arith)
        requires
            secs >= 0,
    ;
}

impl File {
    /// A new record with a fresh random id, empty text fields, expire time 0,
    /// and its three times set to the current time.
    pub fn new() -> (res: Self)
        ensures
            (res.id >> 76u128) & 0xfu128 == 4u128,
            (res.id >> 62u128) & 0x3u128 == 2u128,
            res.name@ == Seq::<char>::empty(),
            res.shortcode@ == Seq::<char>::empty(),
            res.md5@ == Seq::<char>::empty(),
            res.status@ == Seq::<char>::empty(),
            res.localurl@ == Seq::<char>::empty(),
            res.localpath@ == Seq::<char>::empty(),
            res.expire_time == 0,
            0 <= res.created_at <= MAX_TIMESTAMP_MICROS,
            res.updated_at == res.created_at,
            res.delete_at == res.created_at,
    {
        let id = new_uuid_v4();
        let now = now_micros();
        File {
            id,
            name: String::new(),
            shortcode: String::new(),
            md5: String::new(),
            status: String::new(),
            localurl: String::new(),
            localpath: String::new(),
            expire_time: 0,
            created_at: now,
            updated_at: now,
            delete_at: now,
        }
    }

    /// Sets the short code.
    pub fn set_short_code(&mut self, shortcode: &str)
        ensures
            final(self).shortcode@ == shortcode@,
            same_except_shortcode(*old(self), *final(self)),
    {
        self.shortcode = shortcode.to_owned();
    }

    /// Sets the file name.
    pub fn set_name(&mut self, name: &str)
        ensures
            final(self).name@ == name@,
            same_except_name(*old(self), *final(self)),
    {
        self.name = name.to_owned();
    }

    /// Sets the MD5 digest text.
    pub fn set_md5(&mut self, md5: &str)
        ensures
            final(self).md5@ == md5@,
            same_except_md5(*old(self), *final(self)),
    {
        self.md5 = md5.to_owned();
    }

    /// Sets the download URL.
    pub fn set_local_url(&mut self, local_url: &str)
        ensures
            final(self).localurl@ == local_url@,
            same_except_localurl(*old(self), *final(self)),
    {
        self.localurl = local_url.to_owned();
    }

    /// Sets the path of the stored file, relative to the upload directory.
    pub fn set_local_path(&mut self, local_path: &str)
        ensures
            final(self).localpath@ == local_path@,
            same_except_localpath(*old(self), *final(self)),
    {
        self.localpath = local_path.to_owned();
    }

    /// Sets the deletion time to `now` (microseconds since the epoch) plus
    /// `expire_time_second` seconds.
    pub fn set_delete_time_at(&mut self, now: i64, expire_time_second: u64)
        requires
            0 <= now,
            now + expire_time_second * MICROS_PER_SECOND <= MAX_TIMESTAMP_MICROS,
        ensures
            final(self).delete_at == now + expire_time_second * MICROS_PER_SECOND,
            same_except_delete_at(*old(self), *final(self)),
    {
        assert(expire_time_second * MICROS_PER_SECOND <= MAX_TIMESTAMP_MICROS);
        let secs: i64 = expire_time_second as i64;
        self.delete_at = now + secs * MICROS_PER_SECOND;
    }

    /// Sets the deletion time to `expire_time_second` seconds after the clock
    /// reading `now`, where that instant is one a date-time can hold, and says
    /// whether it did; otherwise the record is left unchanged.
    pub fn set_delete_time_from(&mut self, now: i64, expire_time_second: u64) -> (res: bool)
        requires
            0 <= now <= MAX_TIMESTAMP_MICROS,
        ensures
            res == (deadline(now as int, expire_time_second as int) <= MAX_TIMESTAMP_MICROS),
            res ==> final(self).delete_at == deadline(now as int, expire_time_second as int),
            same_except_delete_at(*old(self), *final(self)),
            !res ==> *final(self) == *old(self),
    {
        if expire_time_second <= ((MAX_TIMESTAMP_MICROS - now) / MICROS_PER_SECOND) as u64 {
            assert(expire_time_second * MICROS_PER_SECOND <= MAX_TIMESTAMP_MICROS - now) by (nonlinear_arith)
                requires
                    expire_time_second as int <= (MAX_TIMESTAMP_MICROS - now) as int / 1_000_000int,
                    MAX_TIMESTAMP_MICROS - now >= 0,
                    MICROS_PER_SECOND == 1_000_000,
            ;
            self.set_delete_time_at(now, expire_time_second);
            true
        } else {
            assert(expire_time_second * MICROS_PER_SECOND > MAX_TIMESTAMP_MICROS - now) by (nonlinear_arith)
                requires
                    expire_time_second as int > (MAX_TIMESTAMP_MICROS - now) as int / 1_000_000int,
                    MAX_TIMESTAMP_MICROS - now >= 0,
                    MICROS_PER_SECOND == 1_000_000,
            ;
            false
        }
    }

    /// Sets the deletion time to `expire_time_second` seconds from now (a clock
    /// reading, which the clock decides), and says whether it did. Where that
    /// instant lies beyond the last one a date-time can hold, the record is left
    /// unchanged and the result is `false`: always so for a span longer than the
    /// whole range, never so for a span of zero. For the clock reading it took,
    /// it is what `set_delete_time_from` does.
    pub fn set_delete_time(&mut self, expire_time_second: u64) -> (res: bool)
        ensures
            same_except_delete_at(*old(self), *final(self)),
            res ==> expire_time_second * MICROS_PER_SECOND <= final(self).delete_at
                <= MAX_TIMESTAMP_MICROS,
            !res ==> *final(self) == *old(self),
            expire_time_second * MICROS_PER_SECOND > MAX_TIMESTAMP_MICROS ==> !res,
            expire_time_second == 0 ==> res,
            exists|now: int|
                0 <= now <= MAX_TIMESTAMP_MICROS && res == (#[trigger] deadline(
                    now,
                    expire_time_second as int,
                ) <= MAX_TIMESTAMP_MICROS) && (res ==> final(self).delete_at == deadline(
                    now,
                    expire_time_second as int,
                )),
    {
        let now = now_micros();
        let res = self.set_delete_time_from(now, expire_time_second);
        assert(0 <= now as int <= MAX_TIMESTAMP_MICROS && res == (deadline(now as int, expire_time_second as int)
            <= MAX_TIMESTAMP_MICROS));
        res
    }

    /// Marks the record inactive: its status becomes `"unactive"`.
    pub fn set_unactive(&mut self)
        ensures
            final(self).status@ == "unactive"@,
            same_except_status(*old(self), *final(self)),
    {
        self.status = String::from_str("unactive");
    }

    /// The file name. Changes nothing.
    pub fn get_name(&mut self) -> (res: &str)
        ensures
            res@ == old(self).name@,
            *final(self) == *old(self),
    {
        self.name.as_str()
    }

    /// The short code. Changes nothing.
    pub fn get_short_code(&mut self) -> (res: &str)
        ensures
            res@ == old(self).shortcode@,
            *final(self) == *old(self),
    {
        self.shortcode.as_str()
    }

    /// The stored file's path. Changes nothing.
    pub fn get_localpath(&mut self) -> (res: &str)
        ensures
            res@ == old(self).localpath@,
            *final(self) == *old(self),
    {
        self.localpath.as_str()
    }

    /// The download URL. Changes nothing.
    pub fn get_localurl(&mut self) -> (res: &str)
        ensures
            res@ == old(self).localurl@,
            *final(self) == *old(self),
    {
        self.localurl.as_str()
    }
}

} // verus!
