//! The band window a receiver monitors around its selected band.
use vstd::prelude::*;

verus! {

/// The first band of a window of `width` bands centred on `selected_band`,
/// clipped at band 0.
pub open spec fn window_start(selected_band: nat, width: nat) -> nat {
    if selected_band >= width / 2 {
        (selected_band - width / 2) as nat
    } else {
        0
    }
}

/// One past the last band of the window, clipped at `num_bands`.
pub open spec fn window_end(num_bands: nat, selected_band: nat, width: nat) -> nat {
    let end = window_start(selected_band, width) + width;
    if end < num_bands {
        end
    } else {
        num_bands
    }
}

/// Marks the bands a receiver of `width` bands monitors when it scans
/// `selected_band`: a contiguous window centred on the selected band and
/// clipped to the spectrum.
pub fn monitored_bands(num_bands: usize, selected_band: usize, width: usize) -> (monitored: Vec<
    bool,
>)
    requires
        num_bands > 0,
        selected_band < num_bands,
        window_start(selected_band as nat, width as nat) + width <= usize::MAX,
    ensures
        monitored@.len() == num_bands,
        forall|band: int|
            0 <= band < num_bands ==> #[trigger] monitored@[band] == (window_start(
                selected_band as nat,
                width as nat,
            ) <= band < window_end(num_bands as nat, selected_band as nat, width as nat)),
{
    let start = selected_band.saturating_sub(width / 2);
    let end = if start + width < num_bands {
        start + width
    } else {
        num_bands
    };
    let mut monitored: Vec<bool> = Vec::new();
    let mut band: usize = 0;
    while band < num_bands
        invariant
            band <= num_bands,
            monitored@.len() == band,
            start == window_start(selected_band as nat, width as nat),
            end == window_end(num_bands as nat, selected_band as nat, width as nat),
            forall|b: int| 0 <= b < band ==> #[trigger] monitored@[b] == (start <= b < end),
        decreases num_bands - band,
    {
        monitored.push(start <= band && band < end);
        band = band + 1;
    }
    monitored
}

/// A receiver with a non-empty window always monitors the band it selected.
pub proof fn lemma_selected_band_is_monitored(num_bands: nat, selected_band: nat, width: nat)
    requires
        selected_band < num_bands,
        width > 0,
    ensures
        window_start(selected_band, width) <= selected_band < window_end(
            num_bands,
            selected_band,
            width,
        ),
{
}

/// The window holds `width` bands unless the top of the spectrum clips it.
pub proof fn lemma_window_width(num_bands: nat, selected_band: nat, width: nat)
    requires
        selected_band < num_bands,
    ensures
        window_end(num_bands, selected_band, width) - window_start(selected_band, width) <= width,
        window_start(selected_band, width) + width <= num_bands ==> window_end(
            num_bands,
            selected_band,
            width,
        ) - window_start(selected_band, width) == width,
{
}

} // verus!
