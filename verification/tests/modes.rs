use wgpu_animator::colormap::Colormap;
use wgpu_animator::interp::InterpMode;
use wgpu_animator::norm::NormMode;

#[test]
fn colormap_labels() {
    assert_eq!(Colormap::Heat.label(), "heat");
    assert_eq!(Colormap::Inferno.label(), "inferno");
    assert_eq!(Colormap::Viridis.label(), "viridis");
    assert_eq!(Colormap::RdBu.label(), "rdbu");
    assert_eq!(Colormap::Grayscale.label(), "grayscale");
}

#[test]
fn colormap_cycle_returns_after_five_steps() {
    let mut c = Colormap::Heat;
    let mut seen = Vec::new();
    for _ in 0..5 {
        seen.push(c.label());
        c = c.next();
    }
    assert_eq!(c, Colormap::Heat);
    assert_eq!(seen, vec!["heat", "inferno", "viridis", "rdbu", "grayscale"]);
}

#[test]
fn colormap_from_name() {
    assert_eq!(Colormap::from_name("inferno"), Colormap::Inferno);
    assert_eq!(Colormap::from_name("VIRIDIS"), Colormap::Viridis);
    assert_eq!(Colormap::from_name("RdBu"), Colormap::RdBu);
    assert_eq!(Colormap::from_name("grayscale"), Colormap::Grayscale);
    assert_eq!(Colormap::from_name("heat"), Colormap::Heat);
    assert_eq!(Colormap::from_name("galaxy"), Colormap::Heat);
    assert_eq!(Colormap::from_name(""), Colormap::Heat);
    assert_eq!(Colormap::from_name("infernos"), Colormap::Heat);
    assert_eq!(Colormap::from_name("ïnferno"), Colormap::Heat);
}

#[test]
fn colormap_label_parses_back() {
    for c in [Colormap::Heat, Colormap::Inferno, Colormap::Viridis, Colormap::RdBu, Colormap::Grayscale] {
        assert_eq!(Colormap::from_name(c.label()), c);
    }
}

#[test]
fn colormap_default_is_heat() {
    assert_eq!(Colormap::default(), Colormap::Heat);
}

#[test]
fn interp_labels_and_codes() {
    assert_eq!(InterpMode::Nearest.label(), "nearest");
    assert_eq!(InterpMode::Linear.label(), "linear");
    assert_eq!(InterpMode::Bicubic.label(), "bicubic");
    assert_eq!(InterpMode::Nearest.as_u32(), 0);
    assert_eq!(InterpMode::Linear.as_u32(), 1);
    assert_eq!(InterpMode::Bicubic.as_u32(), 2);
    assert_eq!(InterpMode::default(), InterpMode::Nearest);
}

#[test]
fn interp_cycle_returns_after_three_steps() {
    assert_eq!(InterpMode::Nearest.next(), InterpMode::Linear);
    assert_eq!(InterpMode::Linear.next(), InterpMode::Bicubic);
    assert_eq!(InterpMode::Bicubic.next(), InterpMode::Nearest);
    for m in [InterpMode::Nearest, InterpMode::Linear, InterpMode::Bicubic] {
        assert_eq!(m.next().next().next(), m);
    }
}

#[test]
fn interp_from_name() {
    assert_eq!(InterpMode::from_name("linear"), InterpMode::Linear);
    assert_eq!(InterpMode::from_name("BiLinear"), InterpMode::Linear);
    assert_eq!(InterpMode::from_name("bicubic"), InterpMode::Bicubic);
    assert_eq!(InterpMode::from_name("CUBIC"), InterpMode::Bicubic);
    assert_eq!(InterpMode::from_name("nearest"), InterpMode::Nearest);
    assert_eq!(InterpMode::from_name("smooth"), InterpMode::Nearest);
    for m in [InterpMode::Nearest, InterpMode::Linear, InterpMode::Bicubic] {
        assert_eq!(InterpMode::from_name(m.label()), m);
    }
}

#[test]
fn norm_labels() {
    assert_eq!(NormMode::Global.label(), "global");
    assert_eq!(NormMode::PerFrame.label(), "per-frame");
    assert_eq!(NormMode::Percentile.label(), "percentile 1–99");
    assert_eq!(NormMode::Fixed.label(), "fixed");
    assert_eq!(NormMode::default(), NormMode::Global);
}

#[test]
fn norm_cycle_returns_after_four_steps() {
    assert_eq!(NormMode::Global.next(), NormMode::PerFrame);
    assert_eq!(NormMode::PerFrame.next(), NormMode::Percentile);
    assert_eq!(NormMode::Percentile.next(), NormMode::Fixed);
    assert_eq!(NormMode::Fixed.next(), NormMode::Global);
    for m in [NormMode::Global, NormMode::PerFrame, NormMode::Percentile, NormMode::Fixed] {
        assert_eq!(m.next().next().next().next(), m);
    }
}

#[test]
fn norm_from_name() {
    assert_eq!(NormMode::from_name("per-frame"), NormMode::PerFrame);
    assert_eq!(NormMode::from_name("PerFrame"), NormMode::PerFrame);
    assert_eq!(NormMode::from_name("frame"), NormMode::PerFrame);
    assert_eq!(NormMode::from_name("percentile"), NormMode::Percentile);
    assert_eq!(NormMode::from_name("PCT"), NormMode::Percentile);
    assert_eq!(NormMode::from_name("fixed"), NormMode::Fixed);
    assert_eq!(NormMode::from_name("global"), NormMode::Global);
    assert_eq!(NormMode::from_name("whatever"), NormMode::Global);
    for m in [NormMode::Global, NormMode::PerFrame, NormMode::Fixed] {
        assert_eq!(NormMode::from_name(m.label()), m);
    }
    // The percentile label names the percentiles too and is no command-line name.
    assert_eq!(NormMode::from_name(NormMode::Percentile.label()), NormMode::Global);
}
