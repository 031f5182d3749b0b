//! What sound promises: garbage is told from music, volumes move by steps within
//! their bounds, and a mute takes hold where the sound is passed on.

use vstd::prelude::*;

use crate::audio::{self, AudioInner, CaptureState};
use crate::audio_mac;
use crate::pw_link::PwLinkState;
use crate::text;

verus! {

/// Sound is garbage where 31 of a hundred samples or more are at an end of their
/// range, or 51 of a hundred or more repeat one value on end; nothing is none.
pub proof fn law_garbage(s: Seq<int>)
    ensures
        s.len() == 0 ==> !audio::corrupt(s),
        s.len() > 0 ==> (audio::corrupt(s) <==> 100 * audio::clipped(s) >= 31 * s.len() || 100
            * audio::longest_stuck(s, s.len() as int) >= 51 * s.len()),
{
    if s.len() > 0 {
        let n = s.len() as int;
        let a = audio::clipped(s) * 100;
        let b = audio::longest_stuck(s, n) * 100;
        lemma_over(a as int, n, 30);
        lemma_over(b as int, n, 50);
    }
}

proof fn lemma_over(a: int, n: int, t: int)
    requires
        n > 0,
        a >= 0,
    ensures
        a / n > t <==> a >= (t + 1) * n,
{
    vstd::arithmetic::div_mod::lemma_fundamental_div_mod(a, n);
    let q = a / n;
    assert(q > t <==> a >= (t + 1) * n) by (nonlinear_arith)
        requires
            a == n * q + a % n,
            0 <= a % n < n,
            n > 0,
    ;
}

/// Sound has 48 thousand samples a second in two channels of two bytes, and a source
/// is tried five times more, by four buffers each, half a second apart.
pub proof fn law_sound_numbers()
    ensures
        audio::BYTES_PER_MS == 48 * 2 * 2,
        audio::MAX_PROBE_RETRIES == 5,
        audio::PROBE_FRAMES == 4,
        audio::PROBE_RETRY_MS == 500,
{
}

/// Silence is clean, however long.
pub proof fn law_silence_is_clean(s: Seq<int>)
    requires
        forall|i: int| 0 <= i < s.len() ==> #[trigger] s[i] == 0,
    ensures
        !audio::corrupt(s),
{
    lemma_silent(s, s.len() as int);
    assert(s.take(s.len() as int) =~= s);
    law_garbage(s);
}

proof fn lemma_silent(s: Seq<int>, n: int)
    requires
        0 <= n <= s.len(),
        forall|i: int| 0 <= i < s.len() ==> #[trigger] s[i] == 0,
    ensures
        audio::clipped(s.take(n)) == 0,
        audio::longest_stuck(s, n) == 0,
    decreases n,
{
    if n > 0 {
        lemma_silent(s, n - 1);
        assert(s.take(n).drop_last() =~= s.take(n - 1));
        assert(s.take(n).last() == s[n - 1]);
        assert(s[n - 1] == 0);
    }
}

/// One value on end, unless it is silence, is garbage; and so are samples that are
/// all at an end of their range.
pub proof fn law_stuck_sound_is_garbage(s: Seq<int>, v: int)
    requires
        s.len() > 0,
        v != 0,
        forall|i: int| 0 <= i < s.len() ==> #[trigger] s[i] == v,
    ensures
        audio::corrupt(s),
{
    lemma_stuck(s, v, s.len() as int);
    law_garbage(s);
}

proof fn lemma_stuck(s: Seq<int>, v: int, n: int)
    requires
        0 < n <= s.len(),
        v != 0,
        forall|i: int| 0 <= i < s.len() ==> #[trigger] s[i] == v,
    ensures
        audio::stuck(s, n - 1) == n,
        audio::longest_stuck(s, n) == n,
    decreases n,
{
    assert(s[n - 1] == v);
    if n > 1 {
        lemma_stuck(s, v, n - 1);
        assert(s[n - 2] == v);
    } else {
        assert(audio::longest_stuck(s, 0) == 0);
    }
}

/// A sample counts as clipped at 32767 and at -32768, and nowhere else.
pub proof fn law_clipped_samples(s: Seq<int>, v: int)
    ensures
        audio::clipped(s.push(32767)) == audio::clipped(s) + 1,
        audio::clipped(s.push(-32768)) == audio::clipped(s) + 1,
        v != 32767 && v != -32768 ==> audio::clipped(s.push(v)) == audio::clipped(s),
        audio::clipped(Seq::empty()) == 0,
{
    assert(s.push(32767).drop_last() =~= s);
    assert(s.push(-32768).drop_last() =~= s);
    assert(s.push(v).drop_last() =~= s);
}

/// A stretch of one value grows by each sample that repeats it and ends with one
/// that does not.
pub proof fn law_stretches(s: Seq<int>, i: int)
    requires
        0 < i < s.len(),
    ensures
        s[i] != 0 && s[i] == s[i - 1] ==> audio::stuck(s, i) == audio::stuck(s, i - 1) + 1,
        s[i] != s[i - 1] || s[i] == 0 ==> audio::stuck(s, i) == 0,
        s[0] != 0 ==> audio::stuck(s, 0) == 1,
        audio::longest_stuck(s, i + 1) >= audio::stuck(s, i),
        audio::longest_stuck(s, i + 1) >= audio::longest_stuck(s, i),
        audio::longest_stuck(s, i + 1) == audio::stuck(s, i) || audio::longest_stuck(s, i + 1)
            == audio::longest_stuck(s, i),
{
}

/// A volume that is asked for is the volume, or the nearer end of what is allowed.
pub proof fn law_asked_volume(v: int, max: int)
    requires
        0 <= max,
    ensures
        v < 0 ==> audio::bounded(v, max) == 0,
        0 <= v <= max ==> audio::bounded(v, max) == v,
        v > max ==> audio::bounded(v, max) == max,
        v + 5 <= max ==> audio::lower_of(v + 5, max) == v + 5,
        v + 5 > max ==> audio::lower_of(v + 5, max) == max,
{
}

/// Capturing starts at full volume, with its own buffers, and sounding.
pub proof fn law_capture_starts(max_volume: u32, capture_buf: u32, playback_buf: u32)
    requires
        max_volume <= i32::MAX,
        capture_buf <= i32::MAX,
        playback_buf <= i32::MAX,
    ensures
        ({
            let s = audio::capture_started(max_volume, capture_buf, playback_buf);
            &&& s.running && !s.muted_flag && s.volume == 100 && s.xruns == 0
            &&& s.max_volume == max_volume && s.capture_buf_ms == capture_buf && s.playback_buf_ms
                == playback_buf
        }),
{
}

/// A mute reaches sound that is captured as a flag, and sound that is linked by
/// breaking the links; its end links again where that could be started. Stopping
/// stops the one and parts the other.
pub proof fn law_mute_and_stop(c: CaptureState, p: PwLinkState, a: AudioInner, m: bool)
    ensures
        audio::muted_as(AudioInner::Capture(c), a, m, true) ==> (a matches AudioInner::Capture(d)
            && d.muted_flag == m && d.running == c.running && d.volume == c.volume),
        audio::muted_as(AudioInner::Passthrough(p), a, true, true) ==> (a matches AudioInner::Passthrough(
            q,
        ) && !q.linked && q.source_ports == p.source_ports && q.sink_ports == p.sink_ports),
        audio::muted_as(AudioInner::Passthrough(p), a, false, true) ==> (a
            matches AudioInner::Passthrough(q) && q.linked),
        audio::muted_as(AudioInner::Passthrough(p), a, false, false) ==> (a
            matches AudioInner::Passthrough(q) && q.linked == p.linked),
        audio::stopped(AudioInner::Capture(c), a) ==> (a matches AudioInner::Capture(d) && !d.running
            && d.volume == c.volume && d.muted_flag == c.muted_flag),
        audio::stopped(AudioInner::Passthrough(p), a) ==> (a matches AudioInner::Passthrough(q)
            && !q.linked && q.source_ports == p.source_ports),
{
}

/// A source without a name, or a device through which no sound comes in, answers to
/// nothing; any other answers where what it is called holds the query in any case.
pub proof fn law_answers(s: audio::Source, d: audio_mac::Device, query: Seq<char>)
    ensures
        s.name is None ==> !audio::answers(s, query),
        s.name is Some && text::occurs(text::lower(s.name->0@), text::lower(query)) ==> audio::answers(
            s,
            query,
        ),
        s.name is Some && s.description is Some && text::occurs(
            text::lower(s.description->0@),
            text::lower(query),
        ) ==> audio::answers(s, query),
        !d.has_input ==> !audio_mac::answers(d, query),
        d.has_input ==> (audio_mac::answers(d, query) <==> text::occurs(
            text::lower(d.name@),
            text::lower(query),
        )),
{
}

} // verus!
