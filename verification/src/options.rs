//! What the caller may ask for, and what the archive library is told.

use vstd::prelude::*;

use crate::dict;
use crate::entry::EntryInput;
use crate::error;
use crate::error::{Error, ErrorView};

verus! {

/// How an archive is to be created.
#[derive(Debug)]
pub struct CreateArchiveOptions {
    pub out_path: String,
    pub entries: Vec<EntryInput>,
    /// Compression level 0..=5 (default 3).
    pub level: Option<u32>,
    /// Optional AES-256 password (file-level encryption).
    pub password: Option<String>,
    /// Also encrypt the archive structure (file names): RAR5 header
    /// encryption. Requires `password`; incompatible with multi-volume.
    pub encrypt_headers: Option<bool>,
    /// Add a WinRAR-compatible inline recovery record protecting this percent
    /// (0-100) of the archive. Incompatible with multi-volume.
    pub recovery_percent: Option<u8>,
    /// Create this many `.rev` recovery volumes (WinRAR `-rv`); auto-capped at
    /// the actual data volume count. Requires `volume_size`.
    pub recovery_volume_count: Option<u32>,
    /// Volume size in bytes; when set, produces multi-volume archives
    /// (`name.part1.rar`, ...).
    pub volume_size: Option<i64>,
    /// Reject the operation when the summed input size exceeds this; any size
    /// exceeds a negative one.
    pub max_total_bytes: Option<i64>,
    /// Dictionary size (like WinRAR `-md<size>[k|m|g]`, no unit = MiB).
    /// Values up to 4 GiB must be powers of two (128 KiB .. 4 GiB); values
    /// above 4 GiB are accepted as they are and produce RAR7 (v70) archives.
    pub dict_size: Option<String>,
    /// Create a solid archive (better ratio, slower random access).
    pub solid: Option<bool>,
    /// Add a quick-open record for fast member listing.
    pub quick_open: Option<bool>,
    /// Write BLAKE2sp hash records for every member (like WinRAR `-htb`).
    pub blake2: Option<bool>,
    /// Compression threads (1..=64).
    pub threads: Option<u32>,
    /// Save the creation time (Windows) / ctime (Unix) in the FILE_TIME extra
    /// record (like WinRAR `-tsc`).
    pub save_ctime: Option<bool>,
    /// Save the last access time (like WinRAR `-tsa`).
    pub save_atime: Option<bool>,
    /// Store timestamps at 1-second precision (like WinRAR `-ts...1`).
    pub time_precision_seconds: Option<bool>,
    /// Save the owner and group (numeric ids) on Unix (like WinRAR `-ow`).
    pub save_owner: Option<bool>,
    /// Save NTFS alternate data streams (like WinRAR `-os`; Windows only).
    pub save_streams: Option<bool>,
}

/// How entries are to be appended to an archive.
#[derive(Debug)]
pub struct AppendArchiveOptions {
    /// Existing RAR5 archive to append to (single-volume only).
    pub archive_path: String,
    pub entries: Vec<EntryInput>,
    /// Compression level 0..=5 (default 3).
    pub level: Option<u32>,
    /// Password of the existing archive (needed when its content is encrypted
    /// so the solid chain can be extended).
    pub password: Option<String>,
    /// Dictionary size for the added members (like `-md`; see
    /// [`CreateArchiveOptions::dict_size`]).
    pub dict_size: Option<String>,
}

/// How an archive is to be extracted.
#[derive(Debug)]
pub struct ExtractArchiveOptions {
    /// Destination directory (created when missing).
    pub dest_path: String,
    /// Password for encrypted archives.
    pub password: Option<String>,
    /// Extract members flat (basename only, no directory tree).
    pub flat: Option<bool>,
    /// Maximum dictionary size in bytes accepted when decoding a member.
    /// WinRAR-compatible default: 4 GiB (RAR7 v70 members with larger
    /// dictionaries are refused). Pass 0 for no limit; under a negative one no
    /// dictionary is accepted.
    pub max_dict_size: Option<i64>,
}

/// What the archive library is told of a new archive, with passwords of type
/// `P`.
#[derive(Debug)]
pub struct CreateOptionsOf<P> {
    pub solid: bool,
    pub quick_open: bool,
    pub blake2: bool,
    pub password: Option<P>,
    pub encrypt_headers: bool,
    pub recovery_percent: Option<u8>,
    pub recovery_volumes_percent: Option<u8>,
    pub recovery_volume_count: Option<u32>,
    pub volume_size: Option<u64>,
    pub dict_size_log: Option<u8>,
    pub dict_size_bytes: Option<u64>,
    pub save_ctime: bool,
    pub save_atime: bool,
    pub save_mtime: bool,
    pub time_precision_seconds: bool,
    pub save_owner: bool,
    pub save_streams: bool,
}

/// What the archive library is told of a new archive.
pub type CreateOptions = CreateOptionsOf<String>;

/// The mathematical view of [`CreateOptions`].
pub type CreateOptionsView = CreateOptionsOf<Seq<char>>;

impl DeepView for CreateOptionsOf<String> {
    type V = CreateOptionsView;

    open spec fn deep_view(&self) -> CreateOptionsView {
        CreateOptionsOf {
            solid: self.solid,
            quick_open: self.quick_open,
            blake2: self.blake2,
            password: self.password.deep_view(),
            encrypt_headers: self.encrypt_headers,
            recovery_percent: self.recovery_percent,
            recovery_volumes_percent: self.recovery_volumes_percent,
            recovery_volume_count: self.recovery_volume_count,
            volume_size: self.volume_size,
            dict_size_log: self.dict_size_log,
            dict_size_bytes: self.dict_size_bytes,
            save_ctime: self.save_ctime,
            save_atime: self.save_atime,
            save_mtime: self.save_mtime,
            time_precision_seconds: self.time_precision_seconds,
            save_owner: self.save_owner,
            save_streams: self.save_streams,
        }
    }
}

impl CreateOptionsOf<String> {
    /// The same options once more.
    pub fn duplicate(&self) -> (r: CreateOptions)
        ensures
            r.deep_view() == self.deep_view(),
    {
        CreateOptionsOf {
            solid: self.solid,
            quick_open: self.quick_open,
            blake2: self.blake2,
            password: same_password(&self.password),
            encrypt_headers: self.encrypt_headers,
            recovery_percent: self.recovery_percent,
            recovery_volumes_percent: self.recovery_volumes_percent,
            recovery_volume_count: self.recovery_volume_count,
            volume_size: self.volume_size,
            dict_size_log: self.dict_size_log,
            dict_size_bytes: self.dict_size_bytes,
            save_ctime: self.save_ctime,
            save_atime: self.save_atime,
            save_mtime: self.save_mtime,
            time_precision_seconds: self.time_precision_seconds,
            save_owner: self.save_owner,
            save_streams: self.save_streams,
        }
    }
}

/// What the archive library is told of an extraction.
#[derive(Debug, Clone, Copy, PartialEq, Eq, Structural)]
pub struct ExtractOptions {
    pub flat_paths: bool,
    pub max_unpacked_bytes: Option<u64>,
    pub max_total_unpacked_bytes: Option<u64>,
    pub max_dict_size: Option<u64>,
}

/// A switch that is off by default.
pub open spec fn switched_on(switch: Option<bool>) -> bool {
    switch == Some(true)
}

/// A switch that is off by default.
fn is_on(switch: Option<bool>) -> (r: bool)
    ensures
        r == switched_on(switch),
{
    match switch {
        Some(on) => on,
        None => false,
    }
}

/// A signed number of bytes read as an unsigned one: a negative one is taken
/// modulo 2^64.
pub open spec fn unsigned(bytes: i64) -> u64 {
    if bytes >= 0 {
        bytes as u64
    } else {
        (bytes + 0x1_0000_0000_0000_0000) as u64
    }
}

/// A signed number of bytes read as an unsigned one.
pub fn to_unsigned(bytes: i64) -> (r: u64)
    ensures
        r == unsigned(bytes),
{
    let r = #[verifier::truncate] (bytes as u64);
    assert(bytes < 0 ==> r == bytes + 0x1_0000_0000_0000_0000) by (bit_vector)
        requires
            r == bytes as u64,
    ;
    r
}

/// An optional signed number of bytes read as an unsigned one.
pub open spec fn unsigned_option(bytes: Option<i64>) -> Option<u64> {
    match bytes {
        Some(n) => Some(unsigned(n)),
        None => None,
    }
}

/// An optional signed number of bytes read as an unsigned one.
pub fn to_unsigned_option(bytes: Option<i64>) -> (r: Option<u64>)
    ensures
        r == unsigned_option(bytes),
{
    match bytes {
        Some(n) => Some(to_unsigned(n)),
        None => None,
    }
}

/// The compression level: 3 by default, 5 at most.
pub open spec fn level_of(level: Option<u32>) -> u8 {
    match level {
        None => 3,
        Some(l) => if l < 5 {
            l as u8
        } else {
            5
        },
    }
}

/// The compression level: 3 by default, 5 at most.
pub fn pick_level(level: Option<u32>) -> (r: u8)
    ensures
        r == level_of(level),
{
    match level {
        None => 3,
        Some(l) => {
            if l < 5 {
                l as u8
            } else {
                5
            }
        },
    }
}

/// The number of threads to set, if any: from 1 to 64.
pub open spec fn threads_of(threads: Option<u32>) -> Option<usize> {
    match threads {
        None => None,
        Some(n) => Some(
            if n < 1 {
                1
            } else if n > 64 {
                64
            } else {
                n as usize
            },
        ),
    }
}

/// The number of threads to set, if any: from 1 to 64.
pub fn pick_threads(threads: Option<u32>) -> (r: Option<usize>)
    ensures
        r == threads_of(threads),
{
    match threads {
        None => None,
        Some(n) => {
            if n < 1 {
                Some(1)
            } else if n > 64 {
                Some(64)
            } else {
                Some(n as usize)
            }
        },
    }
}

/// The percentage of the recovery record: none for zero, 100 at most.
pub open spec fn recovery_of(percent: Option<u8>) -> Option<u8> {
    match percent {
        None => None,
        Some(p) => if p == 0 {
            None
        } else if p > 100 {
            Some(100)
        } else {
            Some(p)
        },
    }
}

/// The percentage of the recovery record: none for zero, 100 at most.
pub fn pick_recovery(percent: Option<u8>) -> (r: Option<u8>)
    ensures
        r == recovery_of(percent),
{
    match percent {
        None => None,
        Some(p) => {
            if p == 0 {
                None
            } else if p > 100 {
                Some(100)
            } else {
                Some(p)
            }
        },
    }
}

/// The number of recovery volumes, unless it is zero.
pub open spec fn recovery_volumes_of(count: Option<u32>) -> Option<u32> {
    if count == Some(0u32) {
        None
    } else {
        count
    }
}

/// The number of recovery volumes, unless it is zero.
pub fn pick_recovery_volumes(count: Option<u32>) -> (r: Option<u32>)
    ensures
        r == recovery_volumes_of(count),
{
    match count {
        Some(n) => {
            if n > 0 {
                Some(n)
            } else {
                None
            }
        },
        None => None,
    }
}

/// The password in use: an empty one is none.
pub open spec fn password_of(password: Option<String>) -> Option<Seq<char>> {
    match password {
        Some(p) => if p@.len() > 0 {
            Some(p@)
        } else {
            None
        },
        None => None,
    }
}

/// The password in use: an empty one is none.
pub fn pick_password(password: Option<String>) -> (r: Option<String>)
    ensures
        r.deep_view() == password_of(password),
{
    match password {
        Some(p) => {
            if p.as_str().is_empty() {
                None
            } else {
                Some(p)
            }
        },
        None => None,
    }
}

/// The same password once more.
pub(crate) fn same_password(password: &Option<String>) -> (r: Option<String>)
    ensures
        r.deep_view() == password.deep_view(),
{
    match password {
        Some(p) => Some(p.clone()),
        None => None,
    }
}

/// The dictionary in use, as its exponent or its bytes; neither by default.
pub open spec fn dict_of(size: Option<String>) -> Result<(Option<u8>, Option<u64>), ErrorView> {
    match size {
        Some(s) => dict::dict_size(s@),
        None => Ok((None, None)),
    }
}

/// The dictionary in use, as its exponent or its bytes; neither by default.
pub fn pick_dict(size: Option<String>) -> (r: Result<(Option<u8>, Option<u64>), Error>)
    ensures
        error::outcome_view(r) == dict_of(size),
{
    match size {
        Some(s) => dict::parse_dict_size(s.as_str()),
        None => Ok((None, None)),
    }
}

/// The dictionary limit of an extraction: 4 GiB by default, none for zero. No
/// dictionary is within a negative limit, and none is within zero bytes.
pub open spec fn dict_limit_of(limit: Option<i64>) -> Option<u64> {
    match limit {
        None => Some(0x1_0000_0000),
        Some(v) => if v == 0 {
            None
        } else if v < 0 {
            Some(0)
        } else {
            Some(v as u64)
        },
    }
}

/// The dictionary limit of an extraction: 4 GiB by default, none for zero.
pub fn pick_dict_limit(limit: Option<i64>) -> (r: Option<u64>)
    ensures
        r == dict_limit_of(limit),
{
    match limit {
        None => Some(0x1_0000_0000),
        Some(v) => {
            if v == 0 {
                None
            } else if v < 0 {
                Some(0)
            } else {
                Some(v as u64)
            }
        },
    }
}

/// What the archive library is told of a new archive. The dictionary size is
/// all that can be wrong. Modification times are always saved.
pub open spec fn create_options_of(opts: CreateArchiveOptions) -> Result<
    CreateOptionsView,
    ErrorView,
> {
    match dict_of(opts.dict_size) {
        Err(e) => Err(e),
        Ok((dict_size_log, dict_size_bytes)) => Ok(
            CreateOptionsOf {
                solid: switched_on(opts.solid),
                quick_open: switched_on(opts.quick_open),
                blake2: switched_on(opts.blake2),
                password: password_of(opts.password),
                encrypt_headers: switched_on(opts.encrypt_headers),
                recovery_percent: recovery_of(opts.recovery_percent),
                recovery_volumes_percent: None,
                recovery_volume_count: recovery_volumes_of(opts.recovery_volume_count),
                volume_size: unsigned_option(opts.volume_size),
                dict_size_log,
                dict_size_bytes,
                save_ctime: switched_on(opts.save_ctime),
                save_atime: switched_on(opts.save_atime),
                save_mtime: true,
                time_precision_seconds: switched_on(opts.time_precision_seconds),
                save_owner: switched_on(opts.save_owner),
                save_streams: switched_on(opts.save_streams),
            },
        ),
    }
}

/// What the archive library is told of an extraction: there is no limit but
/// that on the dictionary.
pub open spec fn extract_options_of(opts: ExtractArchiveOptions) -> ExtractOptions {
    ExtractOptions {
        flat_paths: switched_on(opts.flat),
        max_unpacked_bytes: None,
        max_total_unpacked_bytes: None,
        max_dict_size: dict_limit_of(opts.max_dict_size),
    }
}

/// What a request to create an archive comes to, apart from its entries.
#[derive(Debug)]
pub struct CreateSettings {
    pub out_path: String,
    pub limit: Option<i64>,
    pub level: u8,
    pub threads: Option<usize>,
    pub options: Result<CreateOptions, Error>,
}

/// The mathematical view of [`CreateSettings`].
pub struct CreateSettingsView {
    pub out_path: Seq<char>,
    pub limit: Option<i64>,
    pub level: u8,
    pub threads: Option<usize>,
    pub options: Result<CreateOptionsView, ErrorView>,
}

impl DeepView for CreateSettings {
    type V = CreateSettingsView;

    open spec fn deep_view(&self) -> CreateSettingsView {
        CreateSettingsView {
            out_path: self.out_path@,
            limit: self.limit,
            level: self.level,
            threads: self.threads,
            options: error::outcome_view(self.options),
        }
    }
}

/// What a request to create an archive comes to, apart from its entries.
pub open spec fn create_settings_of(opts: CreateArchiveOptions) -> CreateSettingsView {
    CreateSettingsView {
        out_path: opts.out_path@,
        limit: opts.max_total_bytes,
        level: level_of(opts.level),
        threads: threads_of(opts.threads),
        options: create_options_of(opts),
    }
}

/// Settles what a request to create an archive comes to, and hands its entries
/// back.
pub fn settle_create(opts: CreateArchiveOptions) -> (r: (Vec<EntryInput>, CreateSettings))
    ensures
        r.0 == opts.entries,
        r.1.deep_view() == create_settings_of(opts),
{
    let options = match pick_dict(opts.dict_size) {
        Err(e) => Err(e),
        Ok((dict_size_log, dict_size_bytes)) => Ok(
            CreateOptionsOf {
                solid: is_on(opts.solid),
                quick_open: is_on(opts.quick_open),
                blake2: is_on(opts.blake2),
                password: pick_password(opts.password),
                encrypt_headers: is_on(opts.encrypt_headers),
                recovery_percent: pick_recovery(opts.recovery_percent),
                recovery_volumes_percent: None,
                recovery_volume_count: pick_recovery_volumes(opts.recovery_volume_count),
                volume_size: to_unsigned_option(opts.volume_size),
                dict_size_log,
                dict_size_bytes,
                save_ctime: is_on(opts.save_ctime),
                save_atime: is_on(opts.save_atime),
                save_mtime: true,
                time_precision_seconds: is_on(opts.time_precision_seconds),
                save_owner: is_on(opts.save_owner),
                save_streams: is_on(opts.save_streams),
            },
        ),
    };
    let settings = CreateSettings {
        out_path: opts.out_path,
        limit: opts.max_total_bytes,
        level: pick_level(opts.level),
        threads: pick_threads(opts.threads),
        options,
    };
    (opts.entries, settings)
}

/// Settles what a request to extract an archive comes to.
pub fn settle_extract(opts: &ExtractArchiveOptions) -> (r: ExtractOptions)
    ensures
        r == extract_options_of(*opts),
{
    ExtractOptions {
        flat_paths: is_on(opts.flat),
        max_unpacked_bytes: None,
        max_total_unpacked_bytes: None,
        max_dict_size: pick_dict_limit(opts.max_dict_size),
    }
}

/// Whatever the caller asks for, the level is from 0 to 5, the threads are from
/// 1 to 64, the recovery record protects from 1 to 100 percent, there are no
/// zero recovery volumes, and no password is empty.
pub proof fn law_settings_are_in_range(opts: CreateArchiveOptions)
    ensures
        create_settings_of(opts).level <= 5,
        create_settings_of(opts).threads matches Some(n) ==> 1 <= n <= 64,
        create_settings_of(opts).options matches Ok(told) ==> {
            &&& told.recovery_percent matches Some(p) ==> 1 <= p <= 100
            &&& told.recovery_volume_count matches Some(n) ==> n > 0
            &&& told.password matches Some(p) ==> p.len() > 0
            &&& told.dict_size_log is None || told.dict_size_bytes is None
            &&& told.save_mtime
        },
{
}

/// What is in range is taken as it is.
pub proof fn law_settings_in_range_are_kept(
    level: u32,
    threads: u32,
    percent: u8,
    password: String,
    bytes: i64,
)
    ensures
        level <= 5 ==> level_of(Some(level)) == level,
        1 <= threads <= 64 ==> threads_of(Some(threads)) == Some(threads as usize),
        1 <= percent <= 100 ==> recovery_of(Some(percent)) == Some(percent),
        password@.len() > 0 ==> password_of(Some(password)) == Some(password@),
        bytes >= 0 ==> unsigned_option(Some(bytes)) == Some(bytes as u64),
{
}

/// The dictionary size is all that can be wrong with the options.
pub proof fn law_only_the_dictionary_can_be_wrong(opts: CreateArchiveOptions)
    ensures
        create_options_of(opts) is Err <==> dict_of(opts.dict_size) is Err,
        opts.dict_size is None ==> create_options_of(opts) is Ok,
{
}

/// A dictionary is within the limit that the archive library is told exactly
/// if it is within the caller's, unless that is zero; zero alone is no limit.
pub proof fn law_dict_limit_is_kept(limit: i64, bytes: u64)
    requires
        bytes > 0,
    ensures
        dict_limit_of(Some(limit)) is None <==> limit == 0,
        dict_limit_of(Some(limit)) matches Some(told) ==> (bytes <= told <==> bytes as int
            <= limit as int),
        dict_limit_of(None) == Some(dict::MAX_DICT_LOG_BYTES),
{
}

/// The password that is told is the caller's, whatever it is, unless that is
/// empty or missing; then there is none.
pub proof fn law_password_is_the_callers(password: Option<String>)
    ensures
        password matches Some(p) ==> p@.len() > 0 ==> password_of(password) == Some(p@),
        password matches Some(p) ==> p@.len() == 0 ==> password_of(password) is None,
        password is None ==> password_of(password) is None,
{
}

/// The level is the caller's as far as there is such a level, and 3 where the
/// caller names none.
pub proof fn law_level_is_the_callers(level: Option<u32>)
    ensures
        level is None ==> level_of(level) == 3,
        level matches Some(l) ==> l <= 5 ==> level_of(level) == l,
        level matches Some(l) ==> l > 5 ==> level_of(level) == 5,
{
}

/// The dictionary is what the caller's size comes to, and unset where the caller
/// names none.
pub proof fn law_dictionary_is_the_callers(size: Option<String>)
    ensures
        size is None ==> dict_of(size) == Ok::<_, ErrorView>((None::<u8>, None::<u64>)),
        size matches Some(s) ==> dict_of(size) == dict::dict_size(s@),
{
}

/// What an unset, a cleared and a set switch come to: off, off and on.
pub open spec fn follows(told: bool, switch: Option<bool>) -> bool {
    &&& switch is None ==> !told
    &&& switch matches Some(on) ==> told == on
}

/// Each option that the archive library is told depends on the caller's option
/// of the same name alone: a switch is on exactly if the caller set it, the
/// password and the number of recovery volumes are the caller's unless empty or
/// zero, the recovery record has the caller's percentage up to 100, a volume
/// has the caller's size, and the dictionary is what the caller's comes to.
/// Modification times are always saved.
pub proof fn law_each_option_is_the_callers(opts: CreateArchiveOptions)
    ensures
        create_options_of(opts) is Ok <==> (opts.dict_size matches Some(s) ==> dict::dict_size(
            s@,
        ) is Ok),
        create_options_of(opts) matches Err(e) ==> (opts.dict_size matches Some(s)
            && dict::dict_size(s@) == Err::<(Option<u8>, Option<u64>), _>(e)),
        create_options_of(opts) matches Ok(told) ==> {
            &&& follows(told.solid, opts.solid)
            &&& follows(told.quick_open, opts.quick_open)
            &&& follows(told.blake2, opts.blake2)
            &&& follows(told.encrypt_headers, opts.encrypt_headers)
            &&& follows(told.save_ctime, opts.save_ctime)
            &&& follows(told.save_atime, opts.save_atime)
            &&& follows(told.time_precision_seconds, opts.time_precision_seconds)
            &&& follows(told.save_owner, opts.save_owner)
            &&& follows(told.save_streams, opts.save_streams)
            &&& told.save_mtime
            &&& forall|p: Seq<char>|
                told.password == Some(p) <==> opts.password is Some && opts.password->0@ == p
                    && p.len() > 0
            &&& forall|n: u8|
                told.recovery_percent == Some(n) <==> opts.recovery_percent is Some && n > 0 && (
                n == opts.recovery_percent->0 && n <= 100 || n == 100 && opts.recovery_percent->0
                    > 100)
            &&& told.recovery_volumes_percent is None
            &&& forall|n: u32|
                told.recovery_volume_count == Some(n) <==> opts.recovery_volume_count == Some(n)
                    && n > 0
            &&& told.volume_size is Some <==> opts.volume_size is Some
            &&& opts.volume_size matches Some(v) ==> told.volume_size->0 == (if v >= 0 {
                v as int
            } else {
                v + 0x1_0000_0000_0000_0000
            })
            &&& opts.dict_size is None ==> told.dict_size_log is None && told.dict_size_bytes
                is None
            &&& opts.dict_size matches Some(s) ==> dict::dict_size(s@) == Ok::<_, ErrorView>(
                (told.dict_size_log, told.dict_size_bytes),
            )
        },
{
}

/// What the job is told besides is the caller's too: the path and the limit as
/// they are, the level up to 5 and 3 by default, and the number of threads, if
/// there is one, from 1 to 64.
pub proof fn law_settings_are_the_callers(opts: CreateArchiveOptions)
    ensures
        create_settings_of(opts).out_path == opts.out_path@,
        create_settings_of(opts).limit == opts.max_total_bytes,
        create_settings_of(opts).options == create_options_of(opts),
        opts.level is None ==> create_settings_of(opts).level == 3,
        opts.level matches Some(l) ==> l <= 5 ==> create_settings_of(opts).level == l,
        opts.level matches Some(l) ==> l > 5 ==> create_settings_of(opts).level == 5,
        opts.threads is None ==> create_settings_of(opts).threads is None,
        opts.threads matches Some(t) ==> create_settings_of(opts).threads matches Some(n) && {
            &&& 1 <= t <= 64 ==> n == t
            &&& t == 0 ==> n == 1
            &&& t > 64 ==> n == 64
        },
{
}

/// An extraction flattens paths exactly if the caller says so, has no limit on
/// sizes, and has the caller's limit on dictionaries: 4 GiB by default, none for
/// zero, and nothing for a negative one.
pub proof fn law_extraction_is_the_callers(opts: ExtractArchiveOptions)
    ensures
        extract_options_of(opts).flat_paths <==> opts.flat == Some(true),
        extract_options_of(opts).max_unpacked_bytes is None,
        extract_options_of(opts).max_total_unpacked_bytes is None,
        opts.max_dict_size is None ==> extract_options_of(opts).max_dict_size == Some(
            0x1_0000_0000u64,
        ),
        opts.max_dict_size == Some(0i64) <==> extract_options_of(opts).max_dict_size is None,
        opts.max_dict_size matches Some(v) ==> v > 0 ==> extract_options_of(opts).max_dict_size
            == Some(v as u64),
        opts.max_dict_size matches Some(v) ==> v < 0 ==> extract_options_of(opts).max_dict_size
            == Some(0u64),
{
}

/// A view of what the archive library is told hides nothing of it.
pub proof fn law_view_tells_every_option(o: CreateOptions, s: CreateSettings)
    ensures
        o.deep_view() == (CreateOptionsOf::<Seq<char>> {
            password: match o.password {
                Some(p) => Some(p@),
                None => None,
            },
            solid: o.solid,
            quick_open: o.quick_open,
            blake2: o.blake2,
            encrypt_headers: o.encrypt_headers,
            recovery_percent: o.recovery_percent,
            recovery_volumes_percent: o.recovery_volumes_percent,
            recovery_volume_count: o.recovery_volume_count,
            volume_size: o.volume_size,
            dict_size_log: o.dict_size_log,
            dict_size_bytes: o.dict_size_bytes,
            save_ctime: o.save_ctime,
            save_atime: o.save_atime,
            save_mtime: o.save_mtime,
            time_precision_seconds: o.time_precision_seconds,
            save_owner: o.save_owner,
            save_streams: o.save_streams,
        }),
        s.deep_view().out_path == s.out_path@,
        s.deep_view().limit == s.limit,
        s.deep_view().level == s.level,
        s.deep_view().threads == s.threads,
        s.options matches Ok(told) ==> s.deep_view().options == Ok::<_, ErrorView>(
            told.deep_view(),
        ),
        s.options matches Err(e) ==> s.deep_view().options == Err::<CreateOptionsView, _>(
            (ErrorView { status: e.status, reason: e.reason@ }),
        ),
{
}

} // verus!
