//! Playlist arithmetic shared by the music player.
use vstd::prelude::*;
use crate::music_player::PlaylistEntry;
use crate::text::{push_decimal, push_str, string_from_chars};

verus! {

/// Seconds an entry plays: its duration, else the default.
pub open spec fn entry_seconds(e: PlaylistEntry, default_duration: u32) -> nat {
    match e.duration {
        Some(d) => d as nat,
        None => default_duration as nat,
    }
}

/// Total playing time of the entries, in seconds.
pub open spec fn total_seconds(entries: Seq<PlaylistEntry>, default_duration: u32) -> nat
    decreases entries.len(),
{
    if entries.len() == 0 {
        0
    } else {
        total_seconds(entries.drop_last(), default_duration) + entry_seconds(
            entries.last(),
            default_duration,
        )
    }
}

/// A duration in seconds shown as `"{h}h {m}m {s}s"`, or `"{m}m {s}s"`
/// under an hour.
pub open spec fn duration_text(t: nat) -> Seq<char> {
    let hours = t / 3600;
    let minutes = (t % 3600) / 60;
    let seconds = t % 60;
    if hours > 0 {
        crate::text::decimal(hours) + "h "@ + crate::text::decimal(minutes) + "m "@
            + crate::text::decimal(seconds) + "s"@
    } else {
        crate::text::decimal(minutes) + "m "@ + crate::text::decimal(seconds) + "s"@
    }
}

/// The total playing time of a playlist, entries without a duration
/// counting `default_duration` seconds.
pub fn format_total_duration(entries: &[PlaylistEntry], default_duration: u32) -> (s: String)
    requires
        total_seconds(entries@, default_duration) <= u32::MAX,
    ensures
        s@ == duration_text(total_seconds(entries@, default_duration)),
{
    let mut total: u32 = 0;
    let mut i: usize = 0;
    while i < entries.len()
        invariant
            i <= entries@.len(),
            total_seconds(entries@, default_duration) <= u32::MAX,
            total == total_seconds(entries@.take(i as int), default_duration),
        decreases entries@.len() - i,
    {
        assert(entries@.take(i as int + 1).drop_last() =~= entries@.take(i as int));
        proof {
            lemma_total_prefix(entries@, default_duration, i as int + 1);
        }
        let d = match entries[i].duration {
            Some(d) => d,
            None => default_duration,
        };
        total = total + d;
        i = i + 1;
    }
    assert(entries@.take(i as int) =~= entries@);
    let hours = total / 3600;
    let minutes = (total % 3600) / 60;
    let seconds = total % 60;
    let mut out: Vec<char> = Vec::new();
    if hours > 0 {
        push_decimal(&mut out, hours as u64);
        push_str(&mut out, "h ");
    }
    push_decimal(&mut out, minutes as u64);
    push_str(&mut out, "m ");
    push_decimal(&mut out, seconds as u64);
    push_str(&mut out, "s");
    string_from_chars(&out)
}

/// The total of a prefix is at most the total of the whole list.
proof fn lemma_total_prefix(entries: Seq<PlaylistEntry>, default_duration: u32, k: int)
    requires
        0 <= k <= entries.len(),
    ensures
        total_seconds(entries.take(k), default_duration) <= total_seconds(
            entries,
            default_duration,
        ),
    decreases entries.len(),
{
    if k < entries.len() {
        assert(entries.drop_last().take(k) =~= entries.take(k));
        lemma_total_prefix(entries.drop_last(), default_duration, k);
    } else {
        assert(entries.take(k) =~= entries);
    }
}

} // verus!
