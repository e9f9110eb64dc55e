//! Optional network camera (such as a phone used as a webcam via MJPEG).
//!
//! The single images are cut out of the stream here and handed on as raw
//! bytes; the connection itself is made by the caller. This module holds
//! what decides: where a frame begins and ends, what a response's content
//! type means, how long to wait after a failed attempt, what the connection
//! test reports, and the shared state of the one connection.

use vstd::prelude::*;

use crate::i18n::{filled, msg, msg_args, translated, CurrentLang};
use crate::text::{contains_str, contains_text, digits, nat_text, owned, starts_with};

verus! {

/// Start of a JPEG image (SOI plus the first byte of the next marker).
pub open spec fn jpeg_start() -> Seq<u8> {
    seq![0xFFu8, 0xD8u8, 0xFFu8]
}

/// End of a JPEG image (EOI).
pub open spec fn jpeg_end() -> Seq<u8> {
    seq![0xFFu8, 0xD9u8]
}

/// First position at or after `from` where `needle` occurs in `haystack`;
/// none for an empty needle or a start past the end.
pub open spec fn find_from(haystack: Seq<u8>, needle: Seq<u8>, from: int) -> Option<int>
    decreases haystack.len() - from,
{
    if from < 0 || from >= haystack.len() || needle.len() == 0 || from + needle.len() > haystack.len() {
        None
    } else if haystack.subrange(from, from + needle.len()) == needle {
        Some(from)
    } else {
        find_from(haystack, needle, from + 1)
    }
}

pub proof fn lemma_find_from_bounds(haystack: Seq<u8>, needle: Seq<u8>, from: int)
    ensures
        find_from(haystack, needle, from) matches Some(i) ==> from <= i && i + needle.len() <= haystack.len()
            && haystack.subrange(i, i + needle.len()) == needle,
    decreases haystack.len() - from,
{
    if !(from < 0 || from >= haystack.len() || needle.len() == 0 || from + needle.len() > haystack.len()) {
        if haystack.subrange(from, from + needle.len()) != needle {
            lemma_find_from_bounds(haystack, needle, from + 1);
        }
    }
}

fn matches_at(haystack: &[u8], needle: &[u8], i: usize) -> (r: bool)
    requires
        i + needle@.len() <= haystack@.len(),
    ensures
        r == (haystack@.subrange(i as int, i + needle@.len()) == needle@),
{
    let mut j: usize = 0;
    while j < needle.len()
        invariant
            i + needle.len() <= haystack.len(),
            i + needle@.len() <= haystack@.len(),
            j <= needle@.len(),
            forall|k: int| 0 <= k < j ==> haystack@[i + k] == needle@[k],
        decreases needle.len() - j,
    {
        if haystack[i + j] != needle[j] {
            assert(haystack@.subrange(i as int, i + needle@.len())[j as int] != needle@[j as int]);
            return false;
        }
        j = j + 1;
    }
    assert(haystack@.subrange(i as int, i + needle@.len()) =~= needle@);
    true
}

/// Position of `needle` in `haystack` at or after `from`.
pub fn find(haystack: &[u8], needle: &[u8], from: usize) -> (r: Option<usize>)
    ensures
        match r {
            Some(i) => find_from(haystack@, needle@, from as int) == Some(i as int),
            None => find_from(haystack@, needle@, from as int) is None,
        },
{
    if from >= haystack.len() || needle.len() == 0 || needle.len() > haystack.len() - from {
        return None;
    }
    let mut i: usize = from;
    while i <= haystack.len() - needle.len()
        invariant
            from <= i,
            0 < needle@.len() <= haystack@.len(),
            from < haystack@.len(),
            find_from(haystack@, needle@, from as int) == find_from(haystack@, needle@, i as int),
        decreases haystack.len() - i,
    {
        if matches_at(haystack, needle, i) {
            return Some(i);
        }
        i = i + 1;
    }
    None
}

/// Where the next complete image lies in a buffer: from the first image
/// start to the first image end after it, end marker included.
pub open spec fn next_frame_bounds(buffer: Seq<u8>) -> Option<(int, int)> {
    match find_from(buffer, jpeg_start(), 0) {
        Some(start) => match find_from(buffer, jpeg_end(), start + 3) {
            Some(end) => Some((start, end + 2)),
            None => None,
        },
        None => None,
    }
}

/// Cuts the next complete image out of the buffer. The stream is read by
/// the JPEG markers rather than the multipart boundaries, which works alike
/// for all common camera apps. Whatever precedes the image goes with it;
/// an incomplete image stays in the buffer.
pub fn next_jpeg(buffer: &mut Vec<u8>) -> (r: Option<Vec<u8>>)
    ensures
        match next_frame_bounds(old(buffer)@) {
            Some((start, end)) => r matches Some(frame) && frame@ == old(buffer)@.subrange(start, end)
                && final(buffer)@ == old(buffer)@.skip(end),
            None => r is None && final(buffer)@ == old(buffer)@,
        },
        r matches Some(frame) ==> {
            &&& frame@.len() >= 5
            &&& frame@.take(3) == jpeg_start()
            &&& frame@.skip(frame@.len() - 2) == jpeg_end()
            &&& exists|start: int| 0 <= start && old(buffer)@ == old(buffer)@.take(start) + frame@ + final(buffer)@
        },
{
    let start_marker: [u8; 3] = [0xFF, 0xD8, 0xFF];
    let end_marker: [u8; 2] = [0xFF, 0xD9];
    assert(start_marker@ =~= jpeg_start());
    assert(end_marker@ =~= jpeg_end());
    let start = match find(buffer.as_slice(), &start_marker, 0) {
        Some(s) => s,
        None => return None,
    };
    proof {
        lemma_find_from_bounds(buffer@, jpeg_start(), 0);
    }
    assert(start + 3 <= buffer.len());
    let end = match find(buffer.as_slice(), &end_marker, start + 3) {
        Some(e) => e,
        None => return None,
    };
    proof {
        lemma_find_from_bounds(buffer@, jpeg_end(), start + 3);
    }
    assert(end + 2 <= buffer.len());
    let ghost before = buffer@;
    let mut frame: Vec<u8> = Vec::new();
    let stop = end + 2;
    let mut i: usize = start;
    while i < stop
        invariant
            stop == end + 2,
            start <= i <= end + 2,
            end + 2 <= buffer@.len(),
            buffer@ == before,
            frame@ == before.subrange(start as int, i as int),
        decreases stop - i,
    {
        frame.push(buffer[i]);
        i = i + 1;
        assert(frame@ =~= before.subrange(start as int, i as int));
    }
    let mut rest: Vec<u8> = Vec::new();
    let mut k: usize = stop;
    while k < buffer.len()
        invariant
            end + 2 <= k <= buffer@.len(),
            buffer@ == before,
            rest@ == before.subrange(end + 2, k as int),
        decreases buffer.len() - k,
    {
        rest.push(buffer[k]);
        k = k + 1;
        assert(rest@ =~= before.subrange(end + 2, k as int));
    }
    *buffer = rest;
    proof {
        assert(buffer@ =~= before.skip(end + 2));
        assert(frame@.take(3) =~= before.subrange(start as int, start + 3));
        assert(frame@.skip(frame@.len() - 2) =~= before.subrange(end as int, end + 2));
        assert(before =~= before.take(start as int) + frame@ + buffer@);
    }
    Some(frame)
}

/// A big-endian 16-bit number.
pub open spec fn be16(hi: u8, lo: u8) -> u16 {
    (hi as int * 256 + lo as int) as u16
}

/// Is `m` a start-of-frame marker (SOF0..SOF15 without DHT, JPG and DAC),
/// the segment that carries the image size?
pub open spec fn is_sof(m: u8) -> bool {
    0xC0 <= m <= 0xCF && m != 0xC4 && m != 0xC8 && m != 0xCC
}

/// Width and height from the start-of-frame segment, walking the segments
/// from `index` on.
pub open spec fn dimensions_from(data: Seq<u8>, index: int) -> Option<(u16, u16)>
    decreases data.len() + 65546 - index,
{
    if index < 0 || index + 9 >= data.len() {
        None
    } else if data[index] != 0xFF {
        dimensions_from(data, index + 1)
    } else if is_sof(data[index + 1]) {
        Some((be16(data[index + 7], data[index + 8]), be16(data[index + 5], data[index + 6])))
    } else if be16(data[index + 2], data[index + 3]) < 2 {
        None
    } else {
        dimensions_from(data, index + 2 + be16(data[index + 2], data[index + 3]))
    }
}

fn be16_exec(hi: u8, lo: u8) -> (r: u16)
    ensures
        r == be16(hi, lo),
{
    (hi as u16) * 256 + (lo as u16)
}

/// Width and height of a JPEG image, read from its start-of-frame segment.
pub fn jpeg_dimensions(data: &[u8]) -> (r: Option<(u16, u16)>)
    ensures
        r == dimensions_from(data@, 2),
{
    let mut index: usize = 2;
    while index < data.len() && data.len() - index > 9
        invariant
            2 <= index,
            dimensions_from(data@, 2) == dimensions_from(data@, index as int),
        decreases data.len() + 65546 - index,
    {
        if data[index] != 0xFF {
            index = index + 1;
        } else {
            let marker = data[index + 1];
            if 0xC0 <= marker && marker <= 0xCF && marker != 0xC4 && marker != 0xC8 && marker != 0xCC {
                let height = be16_exec(data[index + 5], data[index + 6]);
                let width = be16_exec(data[index + 7], data[index + 8]);
                return Some((width, height));
            }
            let length = be16_exec(data[index + 2], data[index + 3]);
            if length < 2 {
                return None;
            }
            if length as usize + 11 >= data.len() - index {
                assert(dimensions_from(data@, index + 2 + length as int) is None);
                return None;
            }
            index = index + 2 + length as usize;
        }
    }
    None
}

// ---------- responses ----------

/// What the content type of a response means: images or a multipart
/// stream are fine, a web page means the stream is taken (some camera apps
/// answer with their control page then), anything else is the wrong kind;
/// without a content type the stream is simply tried.
pub open spec fn content_type_problem(lang: crate::i18n::Lang, content_type: Option<Seq<char>>) -> Option<Seq<char>> {
    match content_type {
        Some(value) => if contains_text(value, "multipart/"@) || (value.len() >= 6 && value.take(6) == "image/"@) {
            None
        } else if contains_text(value, "text/html"@) {
            Some(translated(lang, "camera.html_response"@))
        } else {
            Some(filled(translated(lang, "camera.wrong_type"@), seq![("type"@, value)]))
        },
        None => None,
    }
}

pub open spec fn opt_text(o: Option<&str>) -> Option<Seq<char>> {
    match o {
        Some(t) => Some(t@),
        None => None,
    }
}

/// Makes sure that image data is coming.
pub fn check_content_type(current_lang: &CurrentLang, content_type: Option<&str>) -> (r: Result<(), String>)
    ensures
        match r {
            Ok(()) => content_type_problem(current_lang.lang, opt_text(content_type)) is None,
            Err(text) => content_type_problem(current_lang.lang, opt_text(content_type)) == Some(text@),
        },
{
    match content_type {
        Some(value) => {
            proof {
                reveal_strlit("image/");
            }
            if contains_str(value, "multipart/") || starts_with(value, "image/") {
                Ok(())
            } else if contains_str(value, "text/html") {
                Err(msg(current_lang, "camera.html_response"))
            } else {
                let args = vec![(owned("type"), owned(value))];
                assert(args.deep_view() =~= seq![("type"@, value@)]);
                Err(msg_args(current_lang, "camera.wrong_type", &args))
            }
        },
        None => Ok(()),
    }
}

} // verus!

verus! {

// ---------- the stream ----------

/// Size of one read from the stream.
pub const READ_CHUNK: usize = 16384;
/// Above this size the buffer counts as lost (no image in sight).
pub const MAX_BUFFER_BYTES: usize = 8388608;
/// Connecting must not hang: a dead address is the normal case on a WLAN.
pub const CONNECT_TIMEOUT_SECS: u64 = 3;
/// Emergency brake for connections that stand without data.
pub const BODY_TIMEOUT_SECS: u64 = 30;
/// Patience of the one-off connection test.
pub const PROBE_TIMEOUT_SECS: u64 = 6;
/// Pause after a fetch that ended cleanly (addresses that deliver single
/// images).
pub const RETRY_PAUSE_MS: u64 = 150;
/// Pause after a failed attempt; it doubles with each further failure, up
/// to the maximum. Apps with a single stream slot keep it taken by anyone
/// who reconnects every second.
pub const ERROR_PAUSE_START_MS: u64 = 700;
pub const ERROR_PAUSE_MAX_MS: u64 = 3000;

pub proof fn lemma_bounds_shrink(buffer: Seq<u8>)
    ensures
        next_frame_bounds(buffer) matches Some((start, end)) ==> 0 <= start && start + 5 <= end <= buffer.len(),
{
    lemma_find_from_bounds(buffer, jpeg_start(), 0);
    if let Some(start) = find_from(buffer, jpeg_start(), 0) {
        lemma_find_from_bounds(buffer, jpeg_end(), start + 3);
    }
}

/// Cuts all complete images out of a buffer: the last of them (or `last`
/// when there is none) and what stays behind.
pub open spec fn drain_frames(buffer: Seq<u8>, last: Option<Seq<u8>>) -> (Option<Seq<u8>>, Seq<u8>)
    decreases buffer.len(),
{
    match next_frame_bounds(buffer) {
        Some((start, end)) => {
            proof {
                lemma_bounds_shrink(buffer);
            }
            if 0 < end <= buffer.len() {
                drain_frames(buffer.skip(end), Some(buffer.subrange(start, end)))
            } else {
                (last, buffer)
            }
        },
        None => (last, buffer),
    }
}

/// The bytes of a stream that are not yet part of a complete image.
pub struct FrameBuffer {
    pub bytes: Vec<u8>,
}

impl FrameBuffer {
    pub fn new() -> (r: FrameBuffer)
        ensures
            r.bytes@.len() == 0,
    {
        FrameBuffer { bytes: Vec::new() }
    }

    /// Adds what was read and cuts out every complete image; returns the
    /// newest. A buffer that grows past the limit without an image is
    /// dropped.
    pub fn push_chunk(&mut self, chunk: &[u8]) -> (r: Option<Vec<u8>>)
        ensures
            ({
                let (last, rest) = drain_frames(old(self).bytes@ + chunk@, None);
                &&& (match r {
                    Some(f) => last == Some(f@),
                    None => last is None,
                })
                &&& final(self).bytes@ == if rest.len() > MAX_BUFFER_BYTES {
                    Seq::empty()
                } else {
                    rest
                }
            }),
    {
        let ghost all = self.bytes@ + chunk@;
        let mut i: usize = 0;
        while i < chunk.len()
            invariant
                i <= chunk@.len(),
                self.bytes@ == old(self).bytes@ + chunk@.take(i as int),
            decreases chunk.len() - i,
        {
            self.bytes.push(chunk[i]);
            i = i + 1;
            assert(self.bytes@ =~= old(self).bytes@ + chunk@.take(i as int));
        }
        assert(chunk@.take(chunk@.len() as int) =~= chunk@);
        let mut last: Option<Vec<u8>> = None;
        loop
            invariant
                drain_frames(self.bytes@, opt_bytes(last)) == drain_frames(all, None),
            ensures
                drain_frames(all, None) == (opt_bytes(last), self.bytes@),
            decreases self.bytes@.len(),
        {
            let ghost before = self.bytes@;
            proof {
                lemma_bounds_shrink(before);
            }
            match next_jpeg(&mut self.bytes) {
                Some(frame) => {
                    last = Some(frame);
                },
                None => {
                    break;
                },
            }
        }
        if self.bytes.len() > MAX_BUFFER_BYTES {
            self.bytes.clear();
        }
        last
    }

    /// At the end of a stream: the image still in the buffer, if any.
    pub fn finish(&mut self) -> (r: Option<Vec<u8>>)
        ensures
            match next_frame_bounds(old(self).bytes@) {
                Some((start, end)) => r matches Some(frame) && frame@ == old(self).bytes@.subrange(start, end)
                    && final(self).bytes@ == old(self).bytes@.skip(end),
                None => r is None && final(self).bytes@ == old(self).bytes@,
            },
    {
        next_jpeg(&mut self.bytes)
    }
}

pub open spec fn opt_bytes(o: Option<Vec<u8>>) -> Option<Seq<u8>> {
    match o {
        Some(v) => Some(v@),
        None => None,
    }
}

/// How long to wait after an attempt, and the pause for the next failure:
/// a clean end waits briefly and resets the error pause; a failure waits
/// the error pause and doubles it, up to the maximum.
pub open spec fn pauses_after(ok: bool, error_pause: u64) -> (u64, u64) {
    if ok {
        (RETRY_PAUSE_MS, ERROR_PAUSE_START_MS)
    } else {
        (error_pause, if 2 * error_pause > ERROR_PAUSE_MAX_MS {
            ERROR_PAUSE_MAX_MS
        } else {
            (2 * error_pause) as u64
        })
    }
}

/// The waits stay between the retry pause and the maximum, and the error
/// pause never passes the maximum.
pub proof fn law_backoff_bounded(ok: bool, error_pause: u64)
    requires
        ERROR_PAUSE_START_MS <= error_pause <= ERROR_PAUSE_MAX_MS,
    ensures
        ERROR_PAUSE_START_MS <= pauses_after(ok, error_pause).1 <= ERROR_PAUSE_MAX_MS,
        RETRY_PAUSE_MS <= pauses_after(ok, error_pause).0 <= ERROR_PAUSE_MAX_MS,
        !ok ==> pauses_after(ok, error_pause).1 >= error_pause,
{
}

// ---------- the one connection ----------

/// The last image received and the connection's state. There is exactly
/// one connection to the camera but several users (overlay and preview):
/// common camera apps serve a single stream client and answer a second one
/// with their control page.
pub struct NetworkCamera {
    running: bool,
    latest: Option<Vec<u8>>,
    error: Option<String>,
    /// The preview in the main window keeps the connection open beyond the
    /// overlay.
    hold: bool,
    /// The id of the fetch that may deliver; every start hands out a new one.
    fetch: u64,
}

/// The camera state as plain values.
pub struct CameraView {
    pub running: bool,
    pub latest: Option<Seq<u8>>,
    pub error: Option<Seq<char>>,
    pub hold: bool,
    pub fetch: u64,
}

impl View for NetworkCamera {
    type V = CameraView;

    closed spec fn view(&self) -> CameraView {
        CameraView {
            running: self.running,
            latest: opt_bytes(self.latest),
            error: match self.error {
                Some(e) => Some(e@),
                None => None,
            },
            hold: self.hold,
            fetch: self.fetch,
        }
    }
}

impl Default for NetworkCamera {
    fn default() -> (r: Self)
        ensures
            r@ == (CameraView { running: false, latest: None, error: None, hold: false, fetch: 0 }),
    {
        NetworkCamera { running: false, latest: None, error: None, hold: false, fetch: 0 }
    }
}

fn clone_bytes(v: &Vec<u8>) -> (r: Vec<u8>)
    ensures
        r@ == v@,
{
    let mut r: Vec<u8> = Vec::new();
    let mut i: usize = 0;
    while i < v.len()
        invariant
            i <= v@.len(),
            r@ == v@.take(i as int),
        decreases v.len() - i,
    {
        r.push(v[i]);
        i = i + 1;
        assert(r@ =~= v@.take(i as int));
    }
    assert(v@.take(v@.len() as int) =~= v@);
    r
}

/// Is `fetch` the fetch that may deliver: the one the last start handed
/// out, while it runs?
pub open spec fn delivers(c: CameraView, fetch: u64) -> bool {
    c.running && c.fetch == fetch
}

/// The id the next start hands out.
pub open spec fn next_fetch(fetch: u64) -> u64 {
    if fetch == u64::MAX {
        0
    } else {
        (fetch + 1) as u64
    }
}

/// The camera after a start: a new fetch runs, no image, no error.
pub open spec fn started(c: CameraView) -> CameraView {
    CameraView { running: true, latest: None, error: None, hold: c.hold, fetch: next_fetch(c.fetch) }
}

/// The camera after fetch `fetch` delivered an image: kept only from the
/// fetch that may deliver; dropped after `stop` or from an earlier fetch.
pub open spec fn frame_recorded(c: CameraView, fetch: u64, frame: Seq<u8>) -> CameraView {
    if delivers(c, fetch) {
        CameraView { latest: Some(frame), ..c }
    } else {
        c
    }
}

/// The camera after an attempt of fetch `fetch` ended with `error` (`None`
/// for a clean end): recorded only from the fetch that may deliver.
pub open spec fn attempt_recorded(c: CameraView, fetch: u64, error: Option<Seq<char>>) -> CameraView {
    if delivers(c, fetch) {
        CameraView { error, ..c }
    } else {
        c
    }
}

/// The camera after `stop`: not running, no image, the rest kept.
pub open spec fn stopped(c: CameraView) -> CameraView {
    CameraView { running: false, latest: None, ..c }
}

/// After `stop` no image is shown and the last error stays, whatever the
/// ended fetch still delivers, until the next `start`.
pub proof fn law_stop_ends_the_fetch(
    c: CameraView,
    frames: Seq<(u64, Seq<u8>)>,
    errors: Seq<(u64, Option<Seq<char>>)>,
)
    ensures
        ({
            let after = frames.fold_left(
                stopped(c),
                |v: CameraView, f: (u64, Seq<u8>)| frame_recorded(v, f.0, f.1),
            );
            let last = errors.fold_left(
                after,
                |v: CameraView, e: (u64, Option<Seq<char>>)| attempt_recorded(v, e.0, e.1),
            );
            last == stopped(c)
        }),
    decreases frames.len() + errors.len(),
{
    if errors.len() > 0 {
        law_stop_ends_the_fetch(c, frames, errors.drop_last());
    } else if frames.len() > 0 {
        law_stop_ends_the_fetch(c, frames.drop_last(), errors);
    }
}

/// One connection at a time: after a start, only the fetch it handed out
/// stores images or errors; every earlier fetch, whatever it still
/// delivers, stores nothing.
pub proof fn law_one_fetch_at_a_time(
    c: CameraView,
    frames: Seq<(u64, Seq<u8>)>,
    errors: Seq<(u64, Option<Seq<char>>)>,
)
    requires
        forall|k: int| 0 <= k < frames.len() ==> (#[trigger] frames[k]).0 != next_fetch(c.fetch),
        forall|k: int| 0 <= k < errors.len() ==> (#[trigger] errors[k]).0 != next_fetch(c.fetch),
    ensures
        next_fetch(c.fetch) != c.fetch,
        ({
            let after = frames.fold_left(
                started(c),
                |v: CameraView, f: (u64, Seq<u8>)| frame_recorded(v, f.0, f.1),
            );
            let last = errors.fold_left(
                after,
                |v: CameraView, e: (u64, Option<Seq<char>>)| attempt_recorded(v, e.0, e.1),
            );
            last == started(c)
        }),
    decreases frames.len() + errors.len(),
{
    if errors.len() > 0 {
        law_one_fetch_at_a_time(c, frames, errors.drop_last());
    } else if frames.len() > 0 {
        law_one_fetch_at_a_time(c, frames.drop_last(), errors);
    }
}

impl NetworkCamera {
    /// Starts fetching (the caller starts the fetch itself): a fetch that
    /// runs is ended first, the last error is forgotten. Returns the id of
    /// the new fetch, the only one that may deliver from now on.
    pub fn start(&mut self) -> (r: u64)
        ensures
            final(self)@ == started(old(self)@),
            r == final(self)@.fetch,
    {
        self.stop();
        self.running = true;
        self.error = None;
        self.fetch = if self.fetch == u64::MAX {
            0
        } else {
            self.fetch + 1
        };
        self.fetch
    }

    /// Starts only if nothing runs, so that a connection is not torn down
    /// for nothing; `true` when the caller has to start a fetch.
    pub fn ensure_started(&mut self) -> (r: Option<u64>)
        ensures
            r is Some == !old(self)@.running,
            r is Some ==> final(self)@ == started(old(self)@) && r == Some(final(self)@.fetch),
            r is None ==> final(self)@ == old(self)@,
    {
        if self.running {
            return None;
        }
        Some(self.start())
    }

    /// Notes that the connection is needed beyond the overlay.
    pub fn set_hold(&mut self, hold: bool)
        ensures
            final(self)@ == (CameraView { hold, ..old(self)@ }),
    {
        self.hold = hold;
    }

    pub fn is_held(&self) -> (r: bool)
        ensures
            r == self@.hold,
    {
        self.hold
    }

    /// Is a fetch supposed to run?
    pub fn is_running(&self) -> (r: bool)
        ensures
            r == self@.running,
    {
        self.running
    }

    /// May fetch `fetch` still deliver? A fetch loop ends once it may not.
    pub fn is_current(&self, fetch: u64) -> (r: bool)
        ensures
            r == delivers(self@, fetch),
    {
        self.running && self.fetch == fetch
    }

    /// Ends the connection unless the preview holds it.
    pub fn stop_unless_held(&mut self)
        ensures
            old(self)@.hold ==> final(self)@ == old(self)@,
            !old(self)@.hold ==> final(self)@ == stopped(old(self)@),
    {
        if !self.is_held() {
            self.stop();
        }
    }

    /// Ends the fetch and drops the last image. The last error stays on
    /// purpose: it is the only hint why the overlay stayed empty.
    pub fn stop(&mut self)
        ensures
            final(self)@ == stopped(old(self)@),
    {
        self.running = false;
        self.latest = None;
    }

    /// The last image received.
    pub fn frame(&self) -> (r: Option<Vec<u8>>)
        ensures
            opt_bytes(r) == self@.latest,
    {
        match &self.latest {
            Some(v) => Some(clone_bytes(v)),
            None => None,
        }
    }

    /// The last connection error.
    pub fn error(&self) -> (r: Option<String>)
        ensures
            r matches Some(e) ==> self@.error == Some(e@),
            r is None ==> self@.error is None,
    {
        match &self.error {
            Some(e) => Some(owned(e.as_str())),
            None => None,
        }
    }

    /// Fetch `fetch` delivered a new image. After `stop`, or from a fetch
    /// that a later start replaced, the image is dropped.
    pub fn record_frame(&mut self, fetch: u64, frame: Vec<u8>)
        ensures
            final(self)@ == frame_recorded(old(self)@, fetch, frame@),
    {
        if self.is_current(fetch) {
            self.latest = Some(frame);
        }
    }

    /// An attempt of fetch `fetch` ended: a clean end clears the error, a
    /// failure records it; after `stop`, or from a replaced fetch, the
    /// outcome is not recorded. Returns how long to wait and the next error
    /// pause.
    pub fn record_attempt(&mut self, fetch: u64, outcome: Result<(), String>, error_pause: u64) -> (r: (u64, u64))
        requires
            error_pause <= ERROR_PAUSE_MAX_MS,
        ensures
            r == pauses_after(outcome is Ok, error_pause),
            final(self)@ == attempt_recorded(
                old(self)@,
                fetch,
                match outcome {
                    Ok(()) => None,
                    Err(m) => Some(m@),
                },
            ),
    {
        let running = self.is_current(fetch);
        match outcome {
            Ok(()) => {
                if running {
                    self.error = None;
                }
                (RETRY_PAUSE_MS, ERROR_PAUSE_START_MS)
            },
            Err(message) => {
                if running {
                    self.error = Some(message);
                }
                let doubled = error_pause * 2;
                (error_pause, if doubled > ERROR_PAUSE_MAX_MS {
                    ERROR_PAUSE_MAX_MS
                } else {
                    doubled
                })
            },
        }
    }
}

// ---------- the connection test ----------

/// What the connection test reports about the first image.
pub open spec fn probe_report(lang: crate::i18n::Lang, stream: bool, frame: Seq<u8>) -> Seq<char> {
    let size = match dimensions_from(frame, 2) {
        Some((width, height)) => filled(
            translated(lang, "camera.pixels"@),
            seq![("width"@, digits(width as nat)), ("height"@, digits(height as nat))],
        ),
        None => digits(frame.len() / 1024) + " KB"@,
    };
    let kind = translated(
        lang,
        if stream {
            "camera.kind_stream"@
        } else {
            "camera.kind_still"@
        },
    );
    filled(translated(lang, "camera.probe_ok"@), seq![("kind"@, kind), ("size"@, size)])
}

/// Without a readable size the connection test reports the frame's size
/// in whole kilobytes; the kind says stream for a stream and still image
/// otherwise.
pub proof fn law_probe_size_in_kilobytes(lang: crate::i18n::Lang, stream: bool, frame: Seq<u8>)
    requires
        dimensions_from(frame, 2) is None,
    ensures
        probe_report(lang, stream, frame) == filled(
            translated(lang, "camera.probe_ok"@),
            seq![
                ("kind"@, translated(lang, if stream { "camera.kind_stream"@ } else { "camera.kind_still"@ })),
                ("size"@, digits(frame.len() / 1024) + " KB"@),
            ],
        ),
{
}

/// The connection test reads the image size from the frame's
/// start-of-frame segment: `{width}` is filled with the number in the
/// segment's bytes 7-8 and `{height}` with the one in bytes 5-6, so a frame
/// 640 wide and 480 high reads "640 × 480".
pub proof fn law_probe_size_is_width_by_height(lang: crate::i18n::Lang, stream: bool, frame: Seq<u8>)
    requires
        frame.len() > 11,
        frame[2] == 0xFF,
        is_sof(frame[3]),
    ensures
        probe_report(lang, stream, frame) == filled(
            translated(lang, "camera.probe_ok"@),
            seq![
                ("kind"@, translated(lang, if stream { "camera.kind_stream"@ } else { "camera.kind_still"@ })),
                (
                    "size"@,
                    filled(
                        translated(lang, "camera.pixels"@),
                        seq![
                            ("width"@, digits(be16(frame[9], frame[10]) as nat)),
                            ("height"@, digits(be16(frame[7], frame[8]) as nat)),
                        ],
                    ),
                ),
            ],
        ),
{
}

/// A running connection test: whether the answer is a stream, and what was
/// read so far.
pub struct Probe {
    pub stream: bool,
    pub buffer: Vec<u8>,
}

/// Begins the one-off connection test for the settings once the response
/// is there: its content type has to promise images.
pub fn probe(current_lang: &CurrentLang, content_type: Option<&str>) -> (r: Result<Probe, String>)
    ensures
        match r {
            Ok(p) => content_type_problem(current_lang.lang, opt_text(content_type)) is None && p.buffer@.len() == 0
                && p.stream == (content_type matches Some(v) && contains_text(v@, "multipart/"@)),
            Err(text) => content_type_problem(current_lang.lang, opt_text(content_type)) == Some(text@),
        },
{
    check_content_type(current_lang, content_type)?;
    let stream = match content_type {
        Some(v) => contains_str(v, "multipart/"),
        None => false,
    };
    Ok(Probe { stream, buffer: Vec::new() })
}

impl Probe {
    /// Takes what was read; the report once an image is complete.
    pub fn feed(&mut self, current_lang: &CurrentLang, chunk: &[u8]) -> (r: Option<String>)
        ensures
            final(self).stream == old(self).stream,
            match next_frame_bounds(old(self).buffer@ + chunk@) {
                Some((start, end)) => r matches Some(text) && text@ == probe_report(
                    current_lang.lang,
                    old(self).stream,
                    (old(self).buffer@ + chunk@).subrange(start, end),
                ),
                None => r is None && final(self).buffer@ == old(self).buffer@ + chunk@,
            },
    {
        let mut i: usize = 0;
        while i < chunk.len()
            invariant
                i <= chunk@.len(),
                self.stream == old(self).stream,
                self.buffer@ == old(self).buffer@ + chunk@.take(i as int),
            decreases chunk.len() - i,
        {
            self.buffer.push(chunk[i]);
            i = i + 1;
            assert(self.buffer@ =~= old(self).buffer@ + chunk@.take(i as int));
        }
        assert(chunk@.take(chunk@.len() as int) =~= chunk@);
        let frame = match next_jpeg(&mut self.buffer) {
            Some(f) => f,
            None => return None,
        };
        let size = match jpeg_dimensions(frame.as_slice()) {
            Some((width, height)) => {
                let args = vec![(owned("width"), nat_text(width as u64)), (owned("height"), nat_text(height as u64))];
                assert(args.deep_view() =~= seq![
                    ("width"@, digits(width as nat)),
                    ("height"@, digits(height as nat)),
                ]);
                msg_args(current_lang, "camera.pixels", &args)
            },
            None => crate::text::concat(nat_text((frame.len() / 1024) as u64).as_str(), " KB"),
        };
        let kind = msg(
            current_lang,
            if self.stream {
                "camera.kind_stream"
            } else {
                "camera.kind_still"
            },
        );
        let args = vec![(owned("kind"), kind), (owned("size"), size)];
        assert(args.deep_view() =~= seq![(args@[0].0@, args@[0].1@), (args@[1].0@, args@[1].1@)]);
        Some(msg_args(current_lang, "camera.probe_ok", &args))
    }
}

/// The test's answer when no image came.
pub fn no_frame(current_lang: &CurrentLang) -> (r: String)
    ensures
        r@ == translated(current_lang.lang, "camera.no_frame"@),
{
    msg(current_lang, "camera.no_frame")
}

} // verus!
