//! The cards of the media page.

use vstd::prelude::*;

use crate::digits;
use crate::digits::dec;
use crate::text;
use crate::text::cat2;

verus! {

/// The bars of a volume display.
pub const BAR_COUNT: usize = 16;

/// What the card of an output shows before its state is known.
#[derive(Clone, Debug)]
pub struct AudioCard {
    pub volume_text: String,
    /// One class for each bar, from the quietest up.
    pub bar_classes: Vec<String>,
}

/// How many of the bars are lit at a volume in percent.
pub open spec fn active_bars(volume: u8) -> nat {
    (volume as nat * 16) / 100
}

/// The class of a bar.
pub open spec fn bar_class(volume: u8, bar: int) -> Seq<char> {
    if bar < active_bars(volume) {
        "vol-bar active"@
    } else {
        "vol-bar"@
    }
}

/// The card of an output that starts at a volume in percent.
pub fn audio_card(default_volume: u8) -> (r: AudioCard)
    ensures
        r.volume_text@ == digits::decimal(default_volume as nat) + "%"@,
        text::views(r.bar_classes@) == Seq::new(16, |bar: int| bar_class(default_volume, bar)),
{
    let lit: usize = (default_volume as usize * BAR_COUNT) / 100;
    let mut bars: Vec<String> = Vec::new();
    let mut i: usize = 0;
    while i < BAR_COUNT
        invariant
            i <= BAR_COUNT,
            lit == active_bars(default_volume),
            text::views(bars@) == Seq::new(i as nat, |bar: int| bar_class(default_volume, bar)),
        decreases BAR_COUNT - i,
    {
        let ghost before = text::views(bars@);
        let class = if i < lit {
            "vol-bar active".to_owned()
        } else {
            "vol-bar".to_owned()
        };
        bars.push(class);
        i += 1;
        proof {
            assert(text::views(bars@) =~= before.push(bar_class(default_volume, i - 1)));
        }
    }
    AudioCard { volume_text: cat2(dec(default_volume as u64).as_str(), "%"), bar_classes: bars }
}

/// A silent output lights no bar, one at full volume lights all of them, and a louder
/// one never lights fewer.
pub proof fn law_bars_follow_volume(quiet: u8, loud: u8)
    requires
        quiet <= loud,
    ensures
        active_bars(0) == 0,
        active_bars(100) == BAR_COUNT,
        active_bars(quiet) <= active_bars(loud),
{
}

/// There are sixteen bars, and a bar is lit exactly where the volume reaches its share of a hundred; the
/// volume is also written in percent.
pub proof fn law_bars_show_the_volume(volume: u8, r: AudioCard, number: String, bar: int)
    requires
        call_ensures(audio_card, (volume,), r),
        call_ensures(dec, (volume as u64,), number),
        0 <= bar < 16,
    ensures
        r.volume_text@ == number@ + "%"@,
        r.bar_classes@.len() == 16,
        100 * (bar + 1) <= 16 * volume ==> r.bar_classes@[bar]@ == "vol-bar active"@,
        100 * (bar + 1) > 16 * volume ==> r.bar_classes@[bar]@ == "vol-bar"@,
{
    let v = text::views(r.bar_classes@);
    assert(v.len() == 16);
    assert(v[bar] == r.bar_classes@[bar]@);
}

} // verus!
