//! The output slots of one source pixel: one swatch per channel.
use vstd::prelude::*;
use crate::pixel::{black_px, grey, grey_px, Rgb};

verus! {

/// The largest number of channels that a colour space has.
pub const MAX_CHANNELS: usize = 4;

/// The swatches that one source pixel gives, one slot per channel. A slot
/// that no rule has written is black.
#[derive(Clone, Copy, Debug)]
pub struct Channels {
    slots: [Rgb; 4],
}

impl View for Channels {
    type V = Seq<Seq<u8>>;

    /// The four slots, each a pixel of three bytes.
    closed spec fn view(&self) -> Seq<Seq<u8>> {
        Seq::new(4, |c: int| self.slots[c]@)
    }
}

impl Channels {
    /// Four black slots.
    pub fn new() -> (channels: Channels)
        ensures
            channels@ == Seq::new(4, |c: int| black_px()),
    {
        let black: Rgb = [0, 0, 0];
        let channels = Channels { slots: [black, black, black, black] };
        proof {
            assert(black@ =~= black_px());
            assert(channels@ =~= Seq::new(4, |c: int| black_px()));
        }
        channels
    }

    /// Writes the swatch of one channel.
    pub fn set_rgb(&mut self, channel: usize, rgb: Rgb)
        requires
            channel < MAX_CHANNELS,
        ensures
            final(self)@ == old(self)@.update(channel as int, rgb@),
    {
        self.slots[channel] = rgb;
        proof {
            assert(self@ =~= old(self)@.update(channel as int, rgb@));
        }
    }

    /// Writes a grey swatch of the given brightness for one channel.
    pub fn set_grey(&mut self, channel: usize, value: u8)
        requires
            channel < MAX_CHANNELS,
        ensures
            final(self)@ == old(self)@.update(channel as int, grey_px(value)),
    {
        self.set_rgb(channel, grey(value));
    }

    /// The swatch of one channel.
    pub fn get(&self, channel: usize) -> (rgb: Rgb)
        requires
            channel < MAX_CHANNELS,
        ensures
            rgb@ == self@[channel as int],
    {
        self.slots[channel]
    }

    /// Every view has four slots of three bytes.
    pub proof fn lemma_shape(&self)
        ensures
            self@.len() == 4,
            forall|c: int| 0 <= c < 4 ==> (#[trigger] self@[c]).len() == 3,
    {
    }
}

} // verus!
