use wyck_chart::presets::{
    accent_is_light, candle_sets, palette, preset, presets, selection, Colors, DEFAULT_DARK, DEFAULT_LIGHT,
};

/// The relative luminance of a color (WCAG): what the contrast of two colors is made from.
fn luminance(color: u32) -> f64 {
    let channel = |c: u32| {
        let c = f64::from(c) / 255.0;
        if c <= 0.03928 {
            c / 12.92
        } else {
            ((c + 0.055) / 1.055).powf(2.4)
        }
    };
    let (r, g, b) = ((color >> 16) & 0xff, (color >> 8) & 0xff, color & 0xff);
    0.2126 * channel(r) + 0.7152 * channel(g) + 0.0722 * channel(b)
}

#[test]
fn every_preset_has_its_own_id_and_name() {
    let all = presets();
    let mut ids: Vec<&str> = all.iter().map(|p| p.id).collect();
    ids.sort_unstable();
    ids.dedup();
    assert_eq!(ids.len(), all.len(), "an id is used twice");
    let mut names: Vec<&str> = all.iter().map(|p| p.name).collect();
    names.sort_unstable();
    names.dedup();
    assert_eq!(names.len(), all.len(), "a name is used twice");
    assert!(preset(DEFAULT_DARK).is_some() && preset(DEFAULT_LIGHT).is_some());
    assert!(preset("no-such-theme").is_none());
}

#[test]
fn the_default_themes_are_a_dark_one_and_a_light_one() {
    assert!(!preset(DEFAULT_DARK).unwrap().colors.is_light());
    assert!(preset(DEFAULT_LIGHT).unwrap().colors.is_light());
}

#[test]
fn every_preset_can_be_read() {
    // Enough contrast between the text and the background to read, and a rising candle that
    // does not look like a falling one.
    for p in presets() {
        let c = p.colors;
        let (a, b) = (luminance(c.bg), luminance(c.fg));
        let ratio = (a.max(b) + 0.05) / (a.min(b) + 0.05);
        assert!(ratio >= 4.5, "{}: text on the background is {ratio:.1}:1", p.name);
        assert_ne!(c.up, c.down, "{}: up and down are the same", p.name);
        // The text of the muted kind still reads.
        let (m, bg) = (luminance(c.muted), luminance(c.bg));
        let muted = (m.max(bg) + 0.05) / (m.min(bg) + 0.05);
        assert!(muted >= 3.0, "{}: muted text is {muted:.1}:1", p.name);
        // What is written on the accent reads too.
        let (t, ac) = (luminance(c.accent_fg), luminance(c.accent));
        let on_accent = (t.max(ac) + 0.05) / (t.min(ac) + 0.05);
        assert!(on_accent >= 3.0, "{}: text on the accent is {on_accent:.1}:1", p.name);
    }
}

#[test]
fn the_candle_sets_have_two_different_colors() {
    for (name, up, down) in candle_sets() {
        assert_ne!(up, down, "{name}");
    }
}

#[test]
fn the_dark_themes_come_first() {
    let all = presets();
    let first_light = all.iter().position(|p| p.colors.is_light()).unwrap();
    assert!(all[..first_light].iter().all(|p| !p.colors.is_light()));
    assert!(all[first_light..].iter().all(|p| p.colors.is_light()));
    assert_eq!(all[0].id, DEFAULT_DARK);
}

#[test]
fn a_palette_fills_in_its_rules() {
    let c: Colors = palette(
        0x101010, 0x202020, 0x303030, 0x404040, 0xf0f0f0, 0x909090, 0xffffff, 0xff0000, 0xffaa00, 0x00ff00,
        0x00aa00, 0xaa0000, 0x0000ff, 0x333333,
    );
    assert_eq!(c.accent_fg, 0x0a0a0a, "dark text on a white accent");
    assert_eq!(c.selected, 0xffffff66);
    assert_eq!(c.chart_bg, 0x101010);
    let d = palette(0, 0, 0, 0, 0, 0, 0x000080, 0, 0, 0, 1, 2, 0, 0);
    assert_eq!(d.accent_fg, 0xffffff, "white text on a dark accent");
}

#[test]
fn light_is_the_weighted_average_over_150() {
    assert!(accent_is_light(0xffffff));
    assert!(!accent_is_light(0x000000));
    // 0x969696: 150 exactly is not over it.
    assert!(!accent_is_light(0x969696));
    assert!(accent_is_light(0x979797));
    assert_eq!(selection(0x5b8def), 0x5b8def66);
    assert_eq!(selection(0xff5b8def), 0x5b8def66, "only the color is kept");
}
