//! Finding the right build of the worker executable, and the decisions of
//! its transfer. The requests themselves are made elsewhere: this module is
//! told what came back, and says what to do next.

use crate::models::{DownloadInfo, FrpcDownload, FrpcInfoResponse};
use crate::outside::{hex_encode, hex_of, lowercase_of, sha256, sha256_of, to_lowercase};
use crate::scan::{parse_u64, parsed_u64, text_eq};
use crate::text::{chars_of, decimal, decimal_string, join, join3, slice_of};
use vstd::prelude::*;

verus! {

/// The name under which the release index lists the build for a system, for
/// the systems that have one.
pub open spec fn platform_text(os: Seq<char>, arch: Seq<char>) -> Option<Seq<char>> {
    if os == "windows"@ && arch == "x86_64"@ {
        Some("win_amd64.exe"@)
    } else if os == "windows"@ && arch == "x86"@ {
        Some("win_386.exe"@)
    } else if os == "windows"@ && arch == "aarch64"@ {
        Some("win_arm64.exe"@)
    } else if os == "linux"@ && arch == "x86"@ {
        Some("linux_386"@)
    } else if os == "linux"@ && arch == "x86_64"@ {
        Some("linux_amd64"@)
    } else if os == "linux"@ && arch == "arm"@ {
        Some("linux_arm"@)
    } else if os == "linux"@ && arch == "aarch64"@ {
        Some("linux_arm64"@)
    } else if os == "linux"@ && arch == "mips64"@ {
        Some("linux_mips64"@)
    } else if os == "linux"@ && arch == "mips"@ {
        Some("linux_mips"@)
    } else if os == "linux"@ && arch == "riscv64"@ {
        Some("linux_riscv64"@)
    } else if os == "macos"@ && arch == "x86_64"@ {
        Some("darwin_amd64"@)
    } else if os == "macos"@ && arch == "aarch64"@ {
        Some("darwin_arm64"@)
    } else {
        None
    }
}

/// The name under which the release index lists the build for a system.
pub fn platform_name(os: &str, arch: &str) -> (name: Option<&'static str>)
    ensures
        match name {
            Some(text) => platform_text(os@, arch@) == Some(text@),
            None => platform_text(os@, arch@) == None::<Seq<char>>,
        },
{
    let windows = text_eq(os, "windows");
    let linux = text_eq(os, "linux");
    let macos = text_eq(os, "macos");
    if windows && text_eq(arch, "x86_64") {
        Some("win_amd64.exe")
    } else if windows && text_eq(arch, "x86") {
        Some("win_386.exe")
    } else if windows && text_eq(arch, "aarch64") {
        Some("win_arm64.exe")
    } else if linux && text_eq(arch, "x86") {
        Some("linux_386")
    } else if linux && text_eq(arch, "x86_64") {
        Some("linux_amd64")
    } else if linux && text_eq(arch, "arm") {
        Some("linux_arm")
    } else if linux && text_eq(arch, "aarch64") {
        Some("linux_arm64")
    } else if linux && text_eq(arch, "mips64") {
        Some("linux_mips64")
    } else if linux && text_eq(arch, "mips") {
        Some("linux_mips")
    } else if linux && text_eq(arch, "riscv64") {
        Some("linux_riscv64")
    } else if macos && text_eq(arch, "x86_64") {
        Some("darwin_amd64")
    } else if macos && text_eq(arch, "aarch64") {
        Some("darwin_arm64")
    } else {
        None
    }
}

/// Why a system is refused.
pub open spec fn unsupported_text(os: Seq<char>, arch: Seq<char>) -> Seq<char> {
    "Unsupported platform: "@ + os + " "@ + arch
}

/// Why the release index is of no use to a system.
pub open spec fn no_match_text(os: Seq<char>, arch: Seq<char>) -> Seq<char> {
    "No matching download found for platform: "@ + os + " "@ + arch
}

/// The address from which the build for a system is fetched directly.
pub open spec fn direct_url_text(platform: Seq<char>) -> Seq<char> {
    "https://cf-v1.uapis.cn/download/frpc/"@ + platform
}

/// The address from which the build for a system is fetched directly, or why
/// the system is refused.
pub fn direct_download_url(os: &str, arch: &str) -> (result: Result<String, String>)
    ensures
        match platform_text(os@, arch@) {
            Some(platform) => result matches Ok(url) && url@ == direct_url_text(platform),
            None => result matches Err(reason) && reason@ == unsupported_text(os@, arch@),
        },
{
    match platform_name(os, arch) {
        Some(platform) => Ok(join("https://cf-v1.uapis.cn/download/frpc/", platform)),
        None => {
            let head = join3("Unsupported platform: ", os, " ");
            Err(join(head.as_str(), arch))
        },
    }
}

/// The name that the release index gives an operating system.
pub open spec fn index_os_text(os: Seq<char>) -> Seq<char> {
    if os == "macos"@ {
        "darwin"@
    } else {
        os
    }
}

/// A listed build fits a system by its platform name.
pub open spec fn fits_platform(download: FrpcDownload, platform: Seq<char>) -> bool {
    download.platform@ == platform
}

/// A listed build fits a system by operating system and architecture. On
/// 64-bit ARM Linux a build for 32-bit ARM fits too.
pub open spec fn fits_system(download: FrpcDownload, os: Seq<char>, arch: Seq<char>) -> bool {
    &&& download.os@ == index_os_text(os)
    &&& (download.arch@ == arch || (os == "linux"@ && arch == "aarch64"@ && download.arch@
        == "arm"@))
}

/// Some listed build fits by its platform name.
pub open spec fn some_fits_platform(downloads: Seq<FrpcDownload>, platform: Seq<char>) -> bool {
    exists|j: int| 0 <= j < downloads.len() && fits_platform(#[trigger] downloads[j], platform)
}

/// The build at index `i` is a candidate: it fits by platform name, or, where
/// none does, by operating system and architecture.
pub open spec fn is_candidate(
    downloads: Seq<FrpcDownload>,
    os: Seq<char>,
    arch: Seq<char>,
    platform: Seq<char>,
    i: int,
) -> bool {
    &&& 0 <= i < downloads.len()
    &&& if some_fits_platform(downloads, platform) {
        fits_platform(downloads[i], platform)
    } else {
        fits_system(downloads[i], os, arch)
    }
}

/// The build at index `i` is the one to take: the largest candidate, and of
/// equally large ones the last.
pub open spec fn is_choice(
    downloads: Seq<FrpcDownload>,
    os: Seq<char>,
    arch: Seq<char>,
    platform: Seq<char>,
    i: int,
) -> bool {
    &&& is_candidate(downloads, os, arch, platform, i)
    &&& forall|j: int| #[trigger]
        is_candidate(downloads, os, arch, platform, j) ==> downloads[j].size < downloads[i].size
            || (downloads[j].size == downloads[i].size && j <= i)
}

/// Whether a listed build fits a system by operating system and
/// architecture.
fn build_fits_system(download: &FrpcDownload, os: &str, arch: &str) -> (fits: bool)
    ensures
        fits == fits_system(*download, os@, arch@),
{
    let index_os = if text_eq(os, "macos") {
        "darwin"
    } else {
        os
    };
    if !text_eq(download.os.as_str(), index_os) {
        return false;
    }
    text_eq(download.arch.as_str(), arch) || (text_eq(os, "linux") && text_eq(arch, "aarch64")
        && text_eq(download.arch.as_str(), "arm"))
}

/// What is known of a listed build once it is chosen.
pub open spec fn info_of(info: DownloadInfo, download: FrpcDownload) -> bool {
    &&& info.url@ == download.link@
    &&& info.hash@ == download.hash@
    &&& info.size == download.size
}

/// The index of the build to take for a system whose platform name is
/// `platform`, if any listed build is a candidate.
pub fn choose_build(downloads: &Vec<FrpcDownload>, os: &str, arch: &str, platform: &str) -> (chosen:
    Option<usize>)
    ensures
        match chosen {
            Some(b) => is_choice(downloads@, os@, arch@, platform@, b as int),
            None => forall|i: int| !is_candidate(downloads@, os@, arch@, platform@, i),
        },
{
    let mut by_platform: Option<usize> = None;
    let mut by_system: Option<usize> = None;
    let mut i: usize = 0;
    while i < downloads.len()
        invariant
            i <= downloads.len(),
            match by_platform {
                Some(b) => b < i && fits_platform(downloads@[b as int], platform@) && forall|
                    k: int,
                |
                    0 <= k < i && fits_platform(#[trigger] downloads@[k], platform@)
                        ==> downloads@[k].size < downloads@[b as int].size || (downloads@[k].size
                        == downloads@[b as int].size && k <= b),
                None => forall|k: int|
                    0 <= k < i ==> !fits_platform(#[trigger] downloads@[k], platform@),
            },
            match by_system {
                Some(b) => b < i && fits_system(downloads@[b as int], os@, arch@) && forall|
                    k: int,
                |
                    0 <= k < i && fits_system(#[trigger] downloads@[k], os@, arch@)
                        ==> downloads@[k].size < downloads@[b as int].size || (downloads@[k].size
                        == downloads@[b as int].size && k <= b),
                None => forall|k: int|
                    0 <= k < i ==> !fits_system(#[trigger] downloads@[k], os@, arch@),
            },
        decreases downloads.len() - i,
    {
        if text_eq(downloads[i].platform.as_str(), platform) {
            by_platform = match by_platform {
                Some(b) => if downloads[i].size >= downloads[b].size {
                    Some(i)
                } else {
                    Some(b)
                },
                None => Some(i),
            };
        }
        if build_fits_system(&downloads[i], os, arch) {
            by_system = match by_system {
                Some(b) => if downloads[i].size >= downloads[b].size {
                    Some(i)
                } else {
                    Some(b)
                },
                None => Some(i),
            };
        }
        i += 1;
    }
    match by_platform {
        Some(b) => {
            assert(some_fits_platform(downloads@, platform@));
            Some(b)
        },
        None => {
            assert(!some_fits_platform(downloads@, platform@));
            by_system
        },
    }
}

/// `result` is what choosing among the listed builds gives for a system
/// whose platform name is `platform`: the build to take, or the report that
/// there is no candidate.
pub open spec fn is_selection(
    downloads: Seq<FrpcDownload>,
    os: Seq<char>,
    arch: Seq<char>,
    platform: Seq<char>,
    result: Result<DownloadInfo, String>,
) -> bool {
    match result {
        Ok(info) => exists|i: int| #[trigger]
            is_choice(downloads, os, arch, platform, i) && info_of(info, downloads[i]),
        Err(reason) => reason@ == no_match_text(os, arch) && forall|i: int|
            !is_candidate(downloads, os, arch, platform, i),
    }
}

/// `result` is what choosing among the listed builds gives for a system: a
/// system without a platform name is refused.
pub open spec fn is_selection_for(
    downloads: Seq<FrpcDownload>,
    os: Seq<char>,
    arch: Seq<char>,
    result: Result<DownloadInfo, String>,
) -> bool {
    match platform_text(os, arch) {
        None => result matches Err(reason) && reason@ == unsupported_text(os, arch),
        Some(platform) => is_selection(downloads, os, arch, platform, result),
    }
}

/// The build that was chosen, or the report that there is no candidate.
fn selection(downloads: &Vec<FrpcDownload>, os: &str, arch: &str, platform: &str) -> (result:
    Result<DownloadInfo, String>)
    ensures
        is_selection(downloads@, os@, arch@, platform@, result),
{
    match choose_build(downloads, os, arch, platform) {
        Some(b) => {
            let info = DownloadInfo {
                url: downloads[b].link.clone(),
                hash: downloads[b].hash.clone(),
                size: downloads[b].size,
            };
            assert(is_choice(downloads@, os@, arch@, platform@, b as int) && info_of(
                info,
                downloads@[b as int],
            ));
            Ok(info)
        },
        None => {
            let head = join3("No matching download found for platform: ", os, " ");
            Err(join(head.as_str(), arch))
        },
    }
}

/// Chooses the build for a system among the listed ones.
pub fn select_download(downloads: &Vec<FrpcDownload>, os: &str, arch: &str) -> (result: Result<
    DownloadInfo,
    String,
>)
    ensures
        is_selection_for(downloads@, os@, arch@, result),
{
    match platform_name(os, arch) {
        Some(platform) => selection(downloads, os, arch, platform),
        None => {
            let head = join3("Unsupported platform: ", os, " ");
            Err(join(head.as_str(), arch))
        },
    }
}

/// The release index has answered with a list that can be used.
pub open spec fn index_usable(response: FrpcInfoResponse) -> bool {
    response.code == 200 && response.state@ == "success"@
}

/// Chooses the build for a system from the answer of the release index. An
/// answer that reports a failure is refused with its message.
pub fn get_download_info(response: &FrpcInfoResponse, os: &str, arch: &str) -> (result: Result<
    DownloadInfo,
    String,
>)
    ensures
        !index_usable(*response) ==> (result matches Err(reason) && reason@
            == "API returned error: "@ + response.msg@),
        index_usable(*response) ==> is_selection_for(
            response.data.downloads@,
            os@,
            arch@,
            result,
        ),
{
    if response.code != 200 || !text_eq(response.state.as_str(), "success") {
        return Err(join("API returned error: ", response.msg.as_str()));
    }
    select_download(&response.data.downloads, os, arch)
}

/// The number of tries after which a transfer gives up.
pub const MAX_RETRIES: u32 = 5;

/// The most bytes that one request asks for.
pub const CHUNK_SIZE: u64 = 1048576;

/// The bytes after which the observer is told of the progress.
pub const PROGRESS_STEP: u64 = 102400;

/// The seconds to wait before a failed request is made again.
pub const RETRY_DELAY_SECS: u64 = 2;

/// How far a transfer has come.
#[derive(Clone, Copy, Debug, PartialEq, Eq, Structural)]
pub struct DownloadState {
    /// The size of the whole file, or zero while it is not known.
    pub total_size: u64,
    /// The bytes received and written so far.
    pub downloaded: u64,
    /// The failed tries in a row.
    pub retry_count: u32,
    /// The bytes received in the present answer since the observer was last
    /// told of the progress.
    pub since_progress: u64,
}

/// What the transfer does next.
pub enum DownloadStep {
    /// The transfer is over; the file is to be checked.
    Done,
    /// The next range is to be asked for at once.
    NextRange,
    /// The same range is to be asked for again after `RETRY_DELAY_SECS`.
    RetryAfterDelay,
    /// The transfer has failed.
    Fail(String),
}

/// A sum that stops at the largest 64-bit number.
pub open spec fn capped_sum(a: u64, b: u64) -> u64 {
    if a + b > u64::MAX {
        u64::MAX
    } else {
        (a + b) as u64
    }
}

/// The failed tries in a row after one more failure.
pub open spec fn one_more(retry_count: u32) -> u32 {
    if retry_count == u32::MAX {
        retry_count
    } else {
        (retry_count + 1) as u32
    }
}

/// The last byte that the next request asks for: a chunk from the first
/// missing byte on, but not past the end of a file of known size.
pub open spec fn range_end(state: DownloadState) -> u64 {
    let chunk_end = capped_sum(state.downloaded, (CHUNK_SIZE - 1) as u64);
    if state.total_size > 0 && state.total_size - 1 < chunk_end {
        (state.total_size - 1) as u64
    } else {
        chunk_end
    }
}

/// The `Range` header of the next request.
pub open spec fn range_header_text(state: DownloadState) -> Seq<char> {
    "bytes="@ + decimal(state.downloaded as nat) + "-"@ + decimal(range_end(state) as nat)
}

/// The index of the last `c` in `s`, if there is one.
pub open spec fn last_index_of(s: Seq<char>, c: char) -> Option<int> {
    if exists|i: int| is_last_index(s, c, i) {
        Some(choose|i: int| is_last_index(s, c, i))
    } else {
        None
    }
}

/// `i` is the index of the last `c` in `s`.
pub open spec fn is_last_index(s: Seq<char>, c: char, i: int) -> bool {
    &&& 0 <= i < s.len()
    &&& s[i] == c
    &&& forall|k: int| i < k < s.len() ==> s[k] != c
}

/// The size of the whole file that a `Content-Range` header names: the
/// number behind its last `/`.
pub open spec fn total_in_range(range: Seq<char>) -> Option<u64> {
    match last_index_of(range, '/') {
        Some(at) => parsed_u64(range.subrange(at + 1, range.len() as int)),
        None => None,
    }
}

/// The size of the whole file that a `Content-Range` header names.
pub fn total_from_content_range(range: &str) -> (total: Option<u64>)
    ensures
        total == total_in_range(range@),
{
    let chars = chars_of(range);
    let mut at: usize = chars.len();
    while at > 0 && chars[at - 1] != '/'
        invariant
            at <= chars.len(),
            forall|k: int| at <= k < chars.len() ==> chars@[k] != '/',
        decreases at,
    {
        at -= 1;
    }
    if at == 0 {
        assert forall|i: int| !is_last_index(chars@, '/', i) by {}
        return None;
    }
    proof {
        assert(is_last_index(chars@, '/', at - 1));
        let found = choose|i: int| is_last_index(chars@, '/', i);
        assert(is_last_index(chars@, '/', found));
        assert(found == at - 1);
    }
    parse_u64(&slice_of(&chars, at, chars.len()))
}

/// Whether a status code reports success.
pub open spec fn is_success_status(status: u16) -> bool {
    200 <= status < 300
}

/// The size of the whole file after an answer with this status and these
/// headers. A partial answer corrects the size by its `Content-Range`; any
/// other answer supplies a size that is not known yet.
pub open spec fn total_after_response(
    total_size: u64,
    status: u16,
    content_range: Option<Seq<char>>,
    content_length: Option<u64>,
) -> u64 {
    if status == 206 {
        match content_range {
            Some(range) => match total_in_range(range) {
                Some(size) => if size > 0 {
                    size
                } else {
                    total_size
                },
                None => total_size,
            },
            None => total_size,
        }
    } else {
        match content_length {
            Some(length) => if total_size == 0 {
                length
            } else {
                total_size
            },
            None => total_size,
        }
    }
}

/// The state after an answer that every check has passed.
pub open spec fn after_clean_stream(state: DownloadState) -> DownloadStep {
    if state.total_size > 0 && state.downloaded >= state.total_size {
        DownloadStep::Done
    } else if state.total_size == 0 && state.since_progress < CHUNK_SIZE {
        DownloadStep::Done
    } else if state.since_progress == 0 {
        DownloadStep::Done
    } else {
        DownloadStep::NextRange
    }
}

impl DownloadState {
    /// Whether the size of the file has to be asked for before the transfer:
    /// it has where the release index did not give it.
    pub fn needs_size_probe(expected_size: u64) -> (needed: bool)
        ensures
            needed == (expected_size == 0),
    {
        expected_size == 0
    }

    /// The state before the first request. The size is the one that the
    /// release index gave, or else the one that the probe found.
    pub fn begin(expected_size: u64, probed_size: Option<u64>) -> (state: Self)
        ensures
            state == (DownloadState {
                total_size: if expected_size > 0 {
                    expected_size
                } else {
                    match probed_size {
                        Some(size) => size,
                        None => 0,
                    }
                },
                downloaded: 0,
                retry_count: 0,
                since_progress: 0,
            }),
    {
        let total_size = if expected_size > 0 {
            expected_size
        } else {
            match probed_size {
                Some(size) => size,
                None => 0,
            }
        };
        DownloadState { total_size, downloaded: 0, retry_count: 0, since_progress: 0 }
    }

    /// The first and the last byte that the next request asks for.
    pub fn next_range(&self) -> (range: (u64, u64))
        ensures
            range.0 == self.downloaded,
            range.1 == range_end(*self),
    {
        let chunk_end = if self.downloaded > u64::MAX - (CHUNK_SIZE - 1) {
            u64::MAX
        } else {
            self.downloaded + (CHUNK_SIZE - 1)
        };
        if self.total_size > 0 && self.total_size - 1 < chunk_end {
            (self.downloaded, self.total_size - 1)
        } else {
            (self.downloaded, chunk_end)
        }
    }

    /// The `Range` header of the next request.
    pub fn range_header(&self) -> (header: String)
        ensures
            header@ == range_header_text(*self),
    {
        let range = self.next_range();
        let first = decimal_string(range.0);
        let last = decimal_string(range.1);
        let head = join3("bytes=", first.as_str(), "-");
        join(head.as_str(), last.as_str())
    }

    /// A request could not be sent, or brought no answer. The transfer tries
    /// again after a delay, and gives up at the fifth failure in a row.
    pub fn request_failed(&mut self, reason: &str) -> (step: DownloadStep)
        ensures
            *final(self) == (DownloadState {
                retry_count: one_more(old(self).retry_count),
                ..*old(self)
            }),
            old(self).retry_count + 1 < MAX_RETRIES ==> step is RetryAfterDelay,
            old(self).retry_count + 1 >= MAX_RETRIES ==> (step matches DownloadStep::Fail(text)
                && text@ == "下载失败，已重试 5 次: "@ + reason@),
    {
        self.retry_count = if self.retry_count == u32::MAX {
            self.retry_count
        } else {
            self.retry_count + 1
        };
        if self.retry_count >= MAX_RETRIES {
            DownloadStep::Fail(join("下载失败，已重试 5 次: ", reason))
        } else {
            DownloadStep::RetryAfterDelay
        }
    }

    /// An answer has come. An answer that reports no success ends the
    /// transfer with an error. Any other one may tell the size of the file,
    /// and ends the run of failed tries.
    pub fn response_received(
        &mut self,
        status: u16,
        status_text: &str,
        content_range: Option<&str>,
        content_length: Option<u64>,
    ) -> (result: Result<(), String>)
        ensures
            is_success_status(status) ==> result is Ok && *final(self) == (DownloadState {
                total_size: total_after_response(
                    old(self).total_size,
                    status,
                    match content_range {
                        Some(range) => Some(range@),
                        None => None,
                    },
                    content_length,
                ),
                downloaded: old(self).downloaded,
                retry_count: 0,
                since_progress: 0,
            }),
            !is_success_status(status) ==> *final(self) == *old(self),
            !is_success_status(status) ==> (result matches Err(text) && text@
                == "下载失败，HTTP 状态码: "@ + status_text@),
    {
        if !(200 <= status && status < 300) {
            return Err(join("下载失败，HTTP 状态码: ", status_text));
        }
        if status == 206 {
            match content_range {
                Some(range) => match total_from_content_range(range) {
                    Some(size) => {
                        if size > 0 {
                            self.total_size = size;
                        }
                    },
                    None => {},
                },
                None => {},
            }
        } else {
            match content_length {
                Some(length) => {
                    if self.total_size == 0 {
                        self.total_size = length;
                    }
                },
                None => {},
            }
        }
        self.retry_count = 0;
        self.since_progress = 0;
        Ok(())
    }

    /// A piece of the file has come and was written. Once `PROGRESS_STEP`
    /// bytes have come since the observer was last told, the bytes received
    /// and the size of the file are returned, for the observer.
    pub fn chunk_received(&mut self, length: u64) -> (progress: Option<(u64, u64)>)
        ensures
            final(self).total_size == old(self).total_size,
            final(self).retry_count == old(self).retry_count,
            final(self).downloaded == capped_sum(old(self).downloaded, length),
            capped_sum(old(self).since_progress, length) >= PROGRESS_STEP ==> final(self).since_progress == 0 && progress == Some(
                (final(self).downloaded, final(self).total_size),
            ),
            capped_sum(old(self).since_progress, length) < PROGRESS_STEP ==> final(self).since_progress == capped_sum(old(self).since_progress, length) && progress
                == None::<(u64, u64)>,
    {
        self.downloaded = if self.downloaded > u64::MAX - length {
            u64::MAX
        } else {
            self.downloaded + length
        };
        self.since_progress = if self.since_progress > u64::MAX - length {
            u64::MAX
        } else {
            self.since_progress + length
        };
        if self.since_progress >= PROGRESS_STEP {
            self.since_progress = 0;
            Some((self.downloaded, self.total_size))
        } else {
            None
        }
    }

    /// The pieces of an answer have ended, with or without an error.
    ///
    /// Without an error the transfer is over when the whole file is there,
    /// when the size is not known and less than a chunk came since the
    /// observer was last told, or when nothing came since then; else the next
    /// range is asked for. After an error the transfer tries again after a
    /// delay, and gives up at the fifth failure in a row.
    pub fn stream_ended(&mut self, chunk_error: bool) -> (step: DownloadStep)
        ensures
            !chunk_error ==> *final(self) == *old(self) && step == after_clean_stream(*old(self)),
            chunk_error ==> *final(self) == (DownloadState {
                retry_count: one_more(old(self).retry_count),
                ..*old(self)
            }),
            chunk_error && old(self).retry_count + 1 < MAX_RETRIES ==> step is RetryAfterDelay,
            chunk_error && old(self).retry_count + 1 >= MAX_RETRIES ==> (step matches DownloadStep::Fail(
                text,
            ) && text@ == "下载失败，已重试 5 次"@),
    {
        if !chunk_error {
            if self.total_size > 0 && self.downloaded >= self.total_size {
                DownloadStep::Done
            } else if self.total_size == 0 && self.since_progress < CHUNK_SIZE {
                DownloadStep::Done
            } else if self.since_progress == 0 {
                DownloadStep::Done
            } else {
                DownloadStep::NextRange
            }
        } else {
            self.retry_count = if self.retry_count == u32::MAX {
                self.retry_count
            } else {
                self.retry_count + 1
            };
            if self.retry_count >= MAX_RETRIES {
                DownloadStep::Fail("下载失败，已重试 5 次".to_owned())
            } else {
                DownloadStep::RetryAfterDelay
            }
        }
    }

    /// Whether the file that was written can be the whole file: a file of
    /// known size must be there in full, and any file must hold something.
    pub fn check_complete(&self) -> (result: Result<(), String>)
        ensures
            self.total_size > 0 && self.downloaded < self.total_size ==> (result matches Err(text)
                && text@ == "下载不完整: 预期 "@ + decimal(self.total_size as nat) + " bytes, 实际下载 "@
                + decimal(self.downloaded as nat) + " bytes"@),
            !(self.total_size > 0 && self.downloaded < self.total_size) && self.downloaded == 0
                ==> (result matches Err(text) && text@ == "下载失败: 没有接收到任何数据"@),
            !(self.total_size > 0 && self.downloaded < self.total_size) && self.downloaded != 0
                ==> result is Ok,
    {
        if self.total_size > 0 && self.downloaded < self.total_size {
            let expected = decimal_string(self.total_size);
            let actual = decimal_string(self.downloaded);
            let head = join3("下载不完整: 预期 ", expected.as_str(), " bytes, 实际下载 ");
            return Err(join3(head.as_str(), actual.as_str(), " bytes"));
        }
        if self.downloaded == 0 {
            return Err("下载失败: 没有接收到任何数据".to_owned());
        }
        Ok(())
    }
}

/// The SHA-256 digest of a file's content, in hexadecimal.
pub open spec fn digest_text(content: Seq<u8>) -> Seq<char> {
    hex_of(sha256_of(content))
}

/// Whether a digest in hexadecimal is the expected one, letter case aside.
pub fn same_digest(computed: &str, expected: &str) -> (same: bool)
    ensures
        same == (lowercase_of(computed@) == lowercase_of(expected@)),
{
    let a = to_lowercase(computed);
    let b = to_lowercase(expected);
    text_eq(a.as_str(), b.as_str())
}

/// Holds the content of the fetched file against the digest that the release
/// index gave for it. The file is refused where the two differ, letter case
/// aside.
pub fn verify_hash(content: &[u8], expected_hash: &str) -> (result: Result<(), String>)
    ensures
        lowercase_of(digest_text(content@)) == lowercase_of(expected_hash@) ==> result is Ok,
        lowercase_of(digest_text(content@)) != lowercase_of(expected_hash@) ==> (result matches Err(
            text,
        ) && text@ == "文件 hash 验证失败: 预期 "@ + expected_hash@ + ", 实际 "@ + digest_text(content@)),
{
    let digest = sha256(content);
    let computed = hex_encode(&digest);
    if same_digest(computed.as_str(), expected_hash) {
        Ok(())
    } else {
        let head = join3("文件 hash 验证失败: 预期 ", expected_hash, ", 实际 ");
        Err(join(head.as_str(), computed.as_str()))
    }
}

} // verus!
