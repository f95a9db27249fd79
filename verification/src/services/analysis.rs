//! The integer side of audio analysis: which files are analysed, which sample
//! depths are read, how interleaved samples split into channels, where the
//! measurement windows start, which cached result is reused, and the
//! statements of the analysis cache.

use vstd::prelude::*;
use vstd::arithmetic::div_mod::lemma_fundamental_div_mod_converse;
use crate::paths::{extension, path_extension};
use crate::sql::{decimal, decimal_string, statement, text_value, views, SqlValueView, Statement};
use crate::text::{concat2, concat3, lowercase, str_equal, to_lowercase};

verus! {

// ---------------------------------------------------------------- sample depth

/// The full-scale value of a supported integer sample depth, none for others.
pub open spec fn full_scale_of(bits: u16) -> Option<u64> {
    if bits == 16 {
        Some(32768)
    } else if bits == 24 {
        Some(8388608)
    } else if bits == 32 {
        Some(2147483648)
    } else {
        None
    }
}

/// The error for an unsupported sample depth.
pub open spec fn bit_depth_message(bits: u16) -> Seq<char> {
    "Unsupported bit depth: "@ + decimal(bits as nat) + ". Only 16, 24, 32 bit WAV supported."@
}

/// The value by which a sample of `bits_per_sample` bits is divided to bring
/// it into [-1, 1]; WAV files of other depths are refused.
pub fn full_scale(bits_per_sample: u16) -> (r: Result<u64, String>)
    ensures
        full_scale_of(bits_per_sample) matches Some(v) ==> r == Ok::<u64, String>(v),
        full_scale_of(bits_per_sample) is None ==> (r matches Err(e) && e@ == bit_depth_message(
            bits_per_sample,
        )),
{
    if bits_per_sample == 16 {
        Ok(32768)
    } else if bits_per_sample == 24 {
        Ok(8388608)
    } else if bits_per_sample == 32 {
        Ok(2147483648)
    } else {
        let d = decimal_string(bits_per_sample as u64);
        Err(concat3("Unsupported bit depth: ", d.as_str(), ". Only 16, 24, 32 bit WAV supported."))
    }
}

// ---------------------------------------------------------------- channels

/// The channels of interleaved samples: frame `f` of channel `ch` is sample
/// `f * channels + ch`; a trailing partial frame is dropped.
pub open spec fn deinterleaved<T>(s: Seq<T>, channels: nat) -> Seq<Seq<T>> {
    Seq::new(
        channels,
        |ch: int| Seq::new(s.len() / channels, |f: int| s[f * channels + ch]),
    )
}

/// Channels written one frame after another.
pub open spec fn interleaved<T>(chs: Seq<Seq<T>>, frames: nat) -> Seq<T> {
    Seq::new(chs.len() * frames, |i: int| chs[i % (chs.len() as int)][i / (chs.len() as int)])
}

/// Frame `f` of channel `ch` lies inside the interleaved samples.
proof fn lemma_frame_index(f: int, ch: int, channels: int, len: int)
    requires
        channels >= 1,
        0 <= ch < channels,
        0 <= f < len / channels,
        len >= 0,
    ensures
        0 <= f * channels + ch < len,
{
    assert(0 <= f * channels) by (nonlinear_arith)
        requires
            f >= 0,
            channels >= 1,
    ;
    assert((f + 1) * channels <= (len / channels) * channels) by (nonlinear_arith)
        requires
            f + 1 <= len / channels,
            channels >= 1,
    ;
    assert((len / channels) * channels <= len) by (nonlinear_arith)
        requires
            channels >= 1,
            len >= 0,
    ;
    assert((f + 1) * channels == f * channels + channels) by (nonlinear_arith);
}

/// Splits interleaved samples into `channels` channels.
pub fn deinterleave<T: Copy>(samples: &Vec<T>, channels: usize) -> (r: Vec<Vec<T>>)
    requires
        channels >= 1,
    ensures
        r@.len() == channels,
        forall|ch: int|
            0 <= ch < channels ==> #[trigger] r@[ch]@ == deinterleaved(samples@, channels as nat)[ch],
{
    let total = samples.len();
    let frames = total / channels;
    let mut out: Vec<Vec<T>> = Vec::new();
    let mut ch: usize = 0;
    while ch < channels
        invariant
            ch <= channels,
            channels >= 1,
            total == samples@.len(),
            frames == samples@.len() / (channels as nat),
            out@.len() == ch,
            forall|c: int|
                0 <= c < ch ==> #[trigger] out@[c]@ == deinterleaved(samples@, channels as nat)[c],
        decreases channels - ch,
    {
        let mut column: Vec<T> = Vec::new();
        let mut f: usize = 0;
        while f < frames
            invariant
                f <= frames,
                ch < channels,
                total == samples@.len(),
                channels >= 1,
                frames == samples@.len() / (channels as nat),
                column@.len() == f,
                forall|g: int|
                    0 <= g < f ==> #[trigger] column@[g] == samples@[g * channels + ch],
            decreases frames - f,
        {
            proof {
                lemma_frame_index(f as int, ch as int, channels as int, samples@.len() as int);
                assert((f as int) * (channels as int) + (ch as int) < samples@.len());
            }
            let i = f * channels + ch;
            column.push(samples[i]);
            f = f + 1;
        }
        proof {
            assert(column@ =~= deinterleaved(samples@, channels as nat)[ch as int]);
        }
        out.push(column);
        ch = ch + 1;
    }
    out
}

/// Deinterleaving undoes interleaving: channels of equal length, written one
/// frame after another, split back into the same channels.
pub proof fn lemma_deinterleave_interleaved<T>(chs: Seq<Seq<T>>, frames: nat)
    requires
        chs.len() >= 1,
        forall|c: int| 0 <= c < chs.len() ==> #[trigger] chs[c].len() == frames,
    ensures
        deinterleaved(interleaved(chs, frames), chs.len()) == chs,
{
    let n = chs.len() as int;
    let s = interleaved(chs, frames);
    assert(s.len() / chs.len() == frames) by {
        assert(s.len() == frames * n + 0) by (nonlinear_arith)
            requires
                s.len() == n * frames,
        ;
        lemma_fundamental_div_mod_converse(s.len() as int, n, frames as int, 0);
    }
    let d = deinterleaved(s, chs.len());
    assert forall|c: int| 0 <= c < n implies #[trigger] d[c] =~= chs[c] by {
        assert forall|f: int| 0 <= f < frames implies #[trigger] d[c][f] == chs[c][f] by {
            lemma_frame_index(f, c, n, s.len() as int);
            lemma_fundamental_div_mod_converse(f * n + c, n, f, c);
        }
    }
    assert(d =~= chs);
}

// ---------------------------------------------------------------- windows

/// `starts` are the starts of the windows of `block_len` frames, `hop` frames
/// apart from frame 0, that fit in `total` frames.
pub open spec fn is_window_starts(starts: Seq<usize>, total: nat, block_len: nat, hop: nat) -> bool {
    &&& forall|k: int| 0 <= k < starts.len() ==> #[trigger] starts[k] == k * hop
    &&& forall|k: int| 0 <= k < starts.len() ==> #[trigger] starts[k] + block_len <= total
    &&& starts.len() * hop + block_len > total
}

/// The starts of the measurement windows: windows of `block_len` frames,
/// `hop` frames apart, as many as fit in `total_frames`.
pub fn window_starts(total_frames: usize, block_len: usize, hop: usize) -> (r: Vec<usize>)
    requires
        hop > 0,
    ensures
        is_window_starts(r@, total_frames as nat, block_len as nat, hop as nat),
{
    let mut starts: Vec<usize> = Vec::new();
    if block_len > total_frames {
        return starts;
    }
    let mut start: usize = 0;
    proof {
        assert(starts@.len() * hop == 0) by (nonlinear_arith)
            requires
                starts@.len() == 0,
        ;
    }
    loop
        invariant_except_break
            start == starts@.len() * hop,
        invariant
            hop > 0,
            block_len <= total_frames,
            start + block_len <= total_frames,
            forall|k: int| 0 <= k < starts@.len() ==> #[trigger] starts@[k] == k * hop,
            forall|k: int|
                0 <= k < starts@.len() ==> #[trigger] starts@[k] + block_len <= total_frames,
        ensures
            is_window_starts(starts@, total_frames as nat, block_len as nat, hop as nat),
        decreases total_frames - start,
    {
        starts.push(start);
        proof {
            assert(starts@.len() * hop == (starts@.len() - 1) * hop + hop) by (nonlinear_arith);
        }
        if hop > total_frames - block_len - start {
            break;
        }
        start = start + hop;
    }
    starts
}

// ---------------------------------------------------------------- inputs

/// The error for a file that does not exist.
pub fn missing_file_error(file_path: &str) -> (r: String)
    ensures
        r@ == "File does not exist: "@ + file_path@,
{
    concat2("File does not exist: ", file_path)
}

/// The error for an audio format that is not read.
pub open spec fn audio_format_message(ext: Seq<char>) -> Seq<char> {
    "Unsupported audio format: ."@ + ext + ". Only WAV is supported currently."@
}

/// Only WAV is read: `lower_ext` is the lowercased extension of the file.
pub fn audio_format_check(lower_ext: &str) -> (r: Result<(), String>)
    ensures
        r is Ok <==> lower_ext@ == "wav"@,
        r matches Err(e) ==> e@ == audio_format_message(lower_ext@),
{
    if str_equal(lower_ext, "wav") {
        Ok(())
    } else {
        Err(concat3("Unsupported audio format: .", lower_ext, ". Only WAV is supported currently."))
    }
}

/// The lowercased extension of `path`, empty when it has none.
pub open spec fn lower_extension(path: Seq<char>) -> Seq<char> {
    match path_extension(path) {
        Some(e) => lowercase(e),
        None => ""@,
    }
}

/// Whether the file at `file_path` is in a format that is read, judged by its
/// lowercased extension.
pub fn check_audio_format(file_path: &str) -> (r: Result<(), String>)
    ensures
        r is Ok <==> lower_extension(file_path@) == "wav"@,
        r matches Err(e) ==> e@ == audio_format_message(lower_extension(file_path@)),
{
    let lower = match extension(file_path) {
        Some(e) => to_lowercase(e.as_str()),
        None => String::new(),
    };
    proof {
        reveal_strlit("");
        reveal_strlit("wav");
        assert(lower@ == lower_extension(file_path@));
    }
    audio_format_check(lower.as_str())
}

/// Decoded channels hold samples when there is a first channel and it is not
/// empty; otherwise the file is refused.
pub fn check_samples<T>(samples: &Vec<Vec<T>>) -> (r: Result<(), String>)
    ensures
        r is Ok <==> (samples@.len() > 0 && samples@[0]@.len() > 0),
        r matches Err(e) ==> e@ == "Audio file contains no samples"@,
{
    if samples.len() == 0 || samples[0].len() == 0 {
        Err(String::from_str("Audio file contains no samples"))
    } else {
        Ok(())
    }
}

// ---------------------------------------------------------------- file hash

/// The lowercase hexadecimal digit `d` as text.
pub open spec fn hex_digit_text(d: int) -> Seq<char> {
    if d == 0 {
        "0"@
    } else if d == 1 {
        "1"@
    } else if d == 2 {
        "2"@
    } else if d == 3 {
        "3"@
    } else if d == 4 {
        "4"@
    } else if d == 5 {
        "5"@
    } else if d == 6 {
        "6"@
    } else if d == 7 {
        "7"@
    } else if d == 8 {
        "8"@
    } else if d == 9 {
        "9"@
    } else if d == 10 {
        "a"@
    } else if d == 11 {
        "b"@
    } else if d == 12 {
        "c"@
    } else if d == 13 {
        "d"@
    } else if d == 14 {
        "e"@
    } else {
        "f"@
    }
}

/// The lowercase hexadecimal notation of `n`, as `{:x}` writes it.
pub open spec fn hex(n: nat) -> Seq<char>
    decreases n,
{
    if n < 16 {
        hex_digit_text(n as int)
    } else {
        hex(n / 16) + hex_digit_text((n % 16) as int)
    }
}

/// The hexadecimal digit `d` as a string.
fn hex_digit_string(d: u64) -> (r: String)
    requires
        d < 16,
    ensures
        r@ == hex_digit_text(d as int),
{
    if d == 0 {
        String::from_str("0")
    } else if d == 1 {
        String::from_str("1")
    } else if d == 2 {
        String::from_str("2")
    } else if d == 3 {
        String::from_str("3")
    } else if d == 4 {
        String::from_str("4")
    } else if d == 5 {
        String::from_str("5")
    } else if d == 6 {
        String::from_str("6")
    } else if d == 7 {
        String::from_str("7")
    } else if d == 8 {
        String::from_str("8")
    } else if d == 9 {
        String::from_str("9")
    } else if d == 10 {
        String::from_str("a")
    } else if d == 11 {
        String::from_str("b")
    } else if d == 12 {
        String::from_str("c")
    } else if d == 13 {
        String::from_str("d")
    } else if d == 14 {
        String::from_str("e")
    } else {
        String::from_str("f")
    }
}

/// The text of a file hash: the hash in lowercase hexadecimal.
pub fn hash_text(n: u64) -> (r: String)
    ensures
        r@ == hex(n as nat),
    decreases n,
{
    if n < 16 {
        hex_digit_string(n)
    } else {
        let mut s = hash_text(n / 16);
        let d = hex_digit_string(n % 16);
        s.append(d.as_str());
        s
    }
}

// ---------------------------------------------------------------- cache

/// Every loudness result cached for a project, newest first: a file's
/// result is found among them by its hash, whichever file was analysed last.
pub open spec fn cached_analysis_sql() -> Seq<char> {
    "SELECT result FROM analysis_cache WHERE project_id = ?1 AND analysis_type = 'loudness' ORDER BY created_at DESC"@
}

/// The query for the loudness results cached for `project_id`, newest first.
pub fn cached_analysis_query(project_id: &str) -> (r: Statement)
    ensures
        r.sql@ == cached_analysis_sql(),
        r.values() == seq![SqlValueView::Text(project_id@)],
{
    let params = vec![text_value(project_id)];
    let r = statement(
        "SELECT result FROM analysis_cache WHERE project_id = ?1 AND analysis_type = 'loudness' ORDER BY created_at DESC",
        params,
    );
    proof {
        assert(r.values() =~= seq![SqlValueView::Text(project_id@)]);
    }
    r
}

/// The first cached result whose file hash is `file_hash`: `hashes[i]` is the
/// file hash of row `i`, none where the row could not be read.
pub fn cached_result_index(hashes: &Vec<Option<String>>, file_hash: &str) -> (r: Option<usize>)
    ensures
        r matches Some(i) ==> i < hashes@.len() && (hashes@[i as int] matches Some(h) && h@
            == file_hash@) && forall|j: int|
            0 <= j < i ==> !(#[trigger] hashes@[j] matches Some(h) && h@ == file_hash@),
        r is None ==> forall|j: int|
            0 <= j < hashes@.len() ==> !(#[trigger] hashes@[j] matches Some(h) && h@
                == file_hash@),
{
    let mut i: usize = 0;
    while i < hashes.len()
        invariant
            i <= hashes@.len(),
            forall|j: int|
                0 <= j < i ==> !(#[trigger] hashes@[j] matches Some(h) && h@ == file_hash@),
        decreases hashes@.len() - i,
    {
        match &hashes[i] {
            Some(h) => {
                if str_equal(h.as_str(), file_hash) {
                    return Some(i);
                }
            },
            None => {},
        }
        i = i + 1;
    }
    None
}

/// The insertion of a loudness result into the cache.
pub open spec fn cache_insert_sql() -> Seq<char> {
    "INSERT INTO analysis_cache (id, project_id, analysis_type, result, created_at) VALUES (?1, ?2, 'loudness', ?3, ?4)"@
}

/// The statement that caches the loudness result `result_json`, with its
/// id, project and time of analysis.
pub fn cache_analysis_statement(id: &str, project_id: &str, result_json: &str, analyzed_at: &str) -> (r:
    Statement)
    ensures
        r.sql@ == cache_insert_sql(),
        r.values() == seq![
            SqlValueView::Text(id@),
            SqlValueView::Text(project_id@),
            SqlValueView::Text(result_json@),
            SqlValueView::Text(analyzed_at@),
        ],
{
    let params = vec![
        text_value(id),
        text_value(project_id),
        text_value(result_json),
        text_value(analyzed_at),
    ];
    let r = statement(
        "INSERT INTO analysis_cache (id, project_id, analysis_type, result, created_at) VALUES (?1, ?2, 'loudness', ?3, ?4)",
        params,
    );
    proof {
        assert(r.values() =~= seq![
            SqlValueView::Text(id@),
            SqlValueView::Text(project_id@),
            SqlValueView::Text(result_json@),
            SqlValueView::Text(analyzed_at@),
        ]);
    }
    r
}

/// The query for the fifty latest loudness results.
pub open spec fn analysis_history_sql() -> Seq<char> {
    "SELECT result FROM analysis_cache WHERE analysis_type = 'loudness' ORDER BY created_at DESC LIMIT 50"@
}

/// The query for the analysis history, newest first.
pub fn analysis_history_query() -> (r: Statement)
    ensures
        r.sql@ == analysis_history_sql(),
        r.params@.len() == 0,
{
    statement(
        "SELECT result FROM analysis_cache WHERE analysis_type = 'loudness' ORDER BY created_at DESC LIMIT 50",
        Vec::new(),
    )
}

} // verus!
