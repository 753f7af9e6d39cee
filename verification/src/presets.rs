//! The themes that come with the app: a name, an id that is saved, and a palette.
//!
//! Each is a small set of colors (see [`Colors`]), so adding one is adding a line. They follow the
//! well known editor palettes, and the chart colors are picked to read on the background: a green
//! and a red that stand apart from it. A theme is dark or light by what its background is, not by
//! a flag.

use vstd::prelude::*;

use crate::text::{chars_of, same_chars};

verus! {

/// The colors of a theme, each `0xRRGGBB` but for the selection, which is `0xRRGGBBAA`.
#[derive(Clone, Copy, Debug, PartialEq, Eq, Structural)]
pub struct Colors {
    pub bg: u32,
    pub surface: u32,
    pub hover: u32,
    pub pressed: u32,
    pub fg: u32,
    pub muted: u32,
    pub accent: u32,
    pub accent_fg: u32,
    pub selected: u32,
    pub danger: u32,
    pub amber: u32,
    pub emerald: u32,
    pub up: u32,
    pub down: u32,
    pub line: u32,
    pub tag: u32,
    pub chart_bg: u32,
}

/// The red, green and blue channels of `0xRRGGBB`.
pub open spec fn red(color: u32) -> int {
    (color as int / 0x1_0000) % 0x100
}

pub open spec fn green(color: u32) -> int {
    (color as int / 0x100) % 0x100
}

pub open spec fn blue(color: u32) -> int {
    color as int % 0x100
}

/// Whether text on this color should be dark: the weighted average of its channels is over 150.
pub open spec fn light_color(color: u32) -> bool {
    (red(color) * 299 + green(color) * 587 + blue(color) * 114) / 1000 > 150
}

/// The tint of a selection over a background: the accent, at about 40% (`0xRRGGBBAA`).
pub open spec fn selection_spec(accent: u32) -> u32 {
    ((accent as int % 0x100_0000) * 0x100 + 0x66) as u32
}

/// The tint of a selection over a background: the accent, at about 40% (`0xRRGGBBAA`).
pub fn selection(accent: u32) -> (r: u32)
    ensures
        r == selection_spec(accent),
{
    let r = (accent << 8u32) | 0x66u32;
    assert(r == ((accent % 0x100_0000) * 0x100 + 0x66) as u32) by (bit_vector)
        requires
            r == (accent << 8u32) | 0x66u32,
    ;
    r
}

/// Whether text on this color should be dark. A cheap version of the contrast rule, fit for a
/// constant: the weighted average of the channels.
pub fn accent_is_light(color: u32) -> (r: bool)
    ensures
        r == light_color(color),
{
    let (r, g, b) = ((color >> 16u32) & 0xff, (color >> 8u32) & 0xff, color & 0xff);
    assert(r == (color / 0x1_0000) % 0x100 && g == (color / 0x100) % 0x100 && b == color % 0x100)
        by (bit_vector)
        requires
            r == (color >> 16u32) & 0xff,
            g == (color >> 8u32) & 0xff,
            b == color & 0xff,
    ;
    (r * 299 + g * 587 + b * 114) / 1000 > 150
}

/// What a palette fills in by rule: black or white on the accent, whichever reads better, the
/// tint of the selection, and the chart's background, which is the page's.
pub open spec fn palette_spec(
    bg: u32,
    surface: u32,
    hover: u32,
    pressed: u32,
    fg: u32,
    muted: u32,
    accent: u32,
    danger: u32,
    amber: u32,
    emerald: u32,
    up: u32,
    down: u32,
    line: u32,
    tag: u32,
) -> Colors {
    Colors {
        bg,
        surface,
        hover,
        pressed,
        fg,
        muted,
        accent,
        accent_fg: if light_color(accent) { 0x0a0a0a } else { 0xffffff },
        selected: selection_spec(accent),
        danger,
        amber,
        emerald,
        up,
        down,
        line,
        tag,
        chart_bg: bg,
    }
}

/// Fills in what the palettes below leave to a rule: the tint of the selection, the text on the
/// accent, and the chart's background, which is the page's.
pub fn palette(
    bg: u32,
    surface: u32,
    hover: u32,
    pressed: u32,
    fg: u32,
    muted: u32,
    accent: u32,
    danger: u32,
    amber: u32,
    emerald: u32,
    up: u32,
    down: u32,
    line: u32,
    tag: u32,
) -> (c: Colors)
    ensures
        c == palette_spec(
            bg,
            surface,
            hover,
            pressed,
            fg,
            muted,
            accent,
            danger,
            amber,
            emerald,
            up,
            down,
            line,
            tag,
        ),
{
    Colors {
        bg,
        surface,
        hover,
        pressed,
        fg,
        muted,
        accent,
        // Black or white on the accent, whichever reads better.
        accent_fg: if accent_is_light(accent) {
            0x0a0a0a
        } else {
            0xffffff
        },
        selected: selection(accent),
        danger,
        amber,
        emerald,
        up,
        down,
        line,
        tag,
        chart_bg: bg,
    }
}

impl Colors {
    /// Whether the theme is a light one: by its background, read as `accent_is_light` reads a
    /// color.
    pub fn is_light(&self) -> (r: bool)
        ensures
            r == light_color(self.bg),
    {
        accent_is_light(self.bg)
    }
}

/// A theme that comes with the app.
#[derive(Clone, Copy, Debug)]
pub struct Preset {
    pub id: &'static str,
    pub name: &'static str,
    pub colors: Colors,
}

pub const DEFAULT_DARK: &'static str = "wyck-dark";

pub const DEFAULT_LIGHT: &'static str = "wyck-light";

/// The colors of the app's own dark theme.
pub open spec fn wyck_dark_spec() -> Colors {
    palette_spec(0x09090b, 0x18181b, 0x27272a, 0x3f3f46, 0xfafafa, 0xa1a1aa, 0x6366f1, 0xff6467, 0xffb900, 0x00d492, 0x26a69a, 0xef5350, 0x5b8def, 0x27272a)
}

impl Colors {
    /// The colors of the app's own dark theme.
    pub fn wyck_dark() -> (c: Colors)
        ensures
            c == wyck_dark_spec(),
    {
        palette(0x09090b, 0x18181b, 0x27272a, 0x3f3f46, 0xfafafa, 0xa1a1aa, 0x6366f1, 0xff6467, 0xffb900, 0x00d492, 0x26a69a, 0xef5350, 0x5b8def, 0x27272a)
    }
}

/// The theme at `k` of the list of those that come with the app.
pub open spec fn preset_spec(k: int) -> Preset {
    if k == 0 {
        Preset { id: "wyck-dark", name: "Wyck Dark", colors: wyck_dark_spec() }
    } else     if k == 1 {
        Preset { id: "midnight", name: "Midnight", colors: palette_spec(0x0b0f1a, 0x131a2b, 0x1b2439, 0x25304a, 0xe6ebf5, 0x8b96b1, 0x5b8def, 0xff6467, 0xffb900, 0x00d492, 0x26a69a, 0xef5350, 0x5b8def, 0x2a3450) }
    } else     if k == 2 {
        Preset { id: "graphite", name: "Graphite", colors: palette_spec(0x121212, 0x1c1c1c, 0x262626, 0x303030, 0xf0f0f0, 0x9a9a9a, 0xe5a00d, 0xff6467, 0xe5a00d, 0x3ecf8e, 0x3ecf8e, 0xf2555a, 0xe5a00d, 0x383838) }
    } else     if k == 3 {
        Preset { id: "nord", name: "Nord", colors: palette_spec(0x2e3440, 0x3b4252, 0x434c5e, 0x4c566a, 0xeceff4, 0x9aa5b8, 0x88c0d0, 0xbf616a, 0xebcb8b, 0xa3be8c, 0xa3be8c, 0xbf616a, 0x81a1c1, 0x4c566a) }
    } else     if k == 4 {
        Preset { id: "dracula", name: "Dracula", colors: palette_spec(0x282a36, 0x343746, 0x44475a, 0x515570, 0xf8f8f2, 0xa3a7c2, 0xbd93f9, 0xff5555, 0xf1fa8c, 0x50fa7b, 0x50fa7b, 0xff5555, 0x8be9fd, 0x44475a) }
    } else     if k == 5 {
        Preset { id: "tokyo-night", name: "Tokyo Night", colors: palette_spec(0x1a1b26, 0x24283b, 0x2f3549, 0x3b4261, 0xc0caf5, 0x7a83a6, 0x7aa2f7, 0xf7768e, 0xe0af68, 0x9ece6a, 0x9ece6a, 0xf7768e, 0x7dcfff, 0x3b4261) }
    } else     if k == 6 {
        Preset { id: "catppuccin-mocha", name: "Catppuccin Mocha", colors: palette_spec(0x1e1e2e, 0x313244, 0x45475a, 0x585b70, 0xcdd6f4, 0xa6adc8, 0xcba6f7, 0xf38ba8, 0xf9e2af, 0xa6e3a1, 0xa6e3a1, 0xf38ba8, 0x89b4fa, 0x45475a) }
    } else     if k == 7 {
        Preset { id: "gruvbox-dark", name: "Gruvbox Dark", colors: palette_spec(0x282828, 0x3c3836, 0x504945, 0x665c54, 0xebdbb2, 0xa89984, 0xfabd2f, 0xfb4934, 0xfabd2f, 0xb8bb26, 0xb8bb26, 0xfb4934, 0x83a598, 0x504945) }
    } else     if k == 8 {
        Preset { id: "one-dark", name: "One Dark", colors: palette_spec(0x282c34, 0x2c313a, 0x3e4451, 0x4b5263, 0xabb2bf, 0x7f848e, 0x61afef, 0xe06c75, 0xe5c07b, 0x98c379, 0x98c379, 0xe06c75, 0x61afef, 0x3e4451) }
    } else     if k == 9 {
        Preset { id: "solarized-dark", name: "Solarized Dark", colors: palette_spec(0x002b36, 0x073642, 0x0e4554, 0x1a5563, 0x93a1a1, 0x6c8089, 0x268bd2, 0xdc322f, 0xb58900, 0x859900, 0x859900, 0xdc322f, 0x2aa198, 0x1a5563) }
    } else     if k == 10 {
        Preset { id: "wyck-light", name: "Wyck Light", colors: palette_spec(0xffffff, 0xf4f4f5, 0xe9e9ec, 0xdcdce0, 0x18181b, 0x6b6b76, 0x5b5bd6, 0xdc2626, 0xd97706, 0x059669, 0x089981, 0xf23645, 0x2962ff, 0xe4e4e7) }
    } else     if k == 11 {
        Preset { id: "github-light", name: "GitHub Light", colors: palette_spec(0xffffff, 0xf6f8fa, 0xeaeef2, 0xd0d7de, 0x1f2328, 0x656d76, 0x0969da, 0xcf222e, 0x9a6700, 0x1a7f37, 0x1a7f37, 0xcf222e, 0x0969da, 0xd0d7de) }
    } else     if k == 12 {
        Preset { id: "catppuccin-latte", name: "Catppuccin Latte", colors: palette_spec(0xeff1f5, 0xe6e9ef, 0xccd0da, 0xbcc0cc, 0x4c4f69, 0x6c6f85, 0x8839ef, 0xd20f39, 0xdf8e1d, 0x40a02b, 0x40a02b, 0xd20f39, 0x1e66f5, 0xccd0da) }
    } else     if k == 13 {
        Preset { id: "solarized-light", name: "Solarized Light", colors: palette_spec(0xfdf6e3, 0xeee8d5, 0xe4ddc4, 0xd8d0b4, 0x586e75, 0x657b83, 0x268bd2, 0xdc322f, 0xb58900, 0x859900, 0x859900, 0xdc322f, 0x268bd2, 0xd8d0b4) }
    } else     if k == 14 {
        Preset { id: "gruvbox-light", name: "Gruvbox Light", colors: palette_spec(0xfbf1c7, 0xebdbb2, 0xd5c4a1, 0xbdae93, 0x3c3836, 0x7c6f64, 0xb57614, 0x9d0006, 0xb57614, 0x79740e, 0x79740e, 0x9d0006, 0x076678, 0xd5c4a1) }
    } else {
        Preset { id: "paper", name: "Paper", colors: palette_spec(0xfafaf7, 0xf1f0ea, 0xe7e5dc, 0xdcd9cd, 0x2b2b2b, 0x77756b, 0x2f6f4f, 0xb42318, 0xb54708, 0x2f6f4f, 0x2f6f4f, 0xb42318, 0x335c8a, 0xdcd9cd) }
    }
}

/// Every theme that comes with the app, dark ones first.
pub open spec fn preset_table() -> Seq<Preset> {
    Seq::new(16, |k: int| preset_spec(k))
}

/// Every theme that comes with the app, dark ones first.
pub fn presets() -> (out: Vec<Preset>)
    ensures
        out@ == preset_table(),
{
    let mut out: Vec<Preset> = Vec::new();
    out.push(Preset { id: "wyck-dark", name: "Wyck Dark", colors: Colors::wyck_dark() });
    out.push(Preset {
        id: "midnight",
        name: "Midnight",
        colors: palette(0x0b0f1a, 0x131a2b, 0x1b2439, 0x25304a, 0xe6ebf5, 0x8b96b1, 0x5b8def, 0xff6467, 0xffb900, 0x00d492, 0x26a69a, 0xef5350, 0x5b8def, 0x2a3450),
    });
    out.push(Preset {
        id: "graphite",
        name: "Graphite",
        colors: palette(0x121212, 0x1c1c1c, 0x262626, 0x303030, 0xf0f0f0, 0x9a9a9a, 0xe5a00d, 0xff6467, 0xe5a00d, 0x3ecf8e, 0x3ecf8e, 0xf2555a, 0xe5a00d, 0x383838),
    });
    out.push(Preset {
        id: "nord",
        name: "Nord",
        colors: palette(0x2e3440, 0x3b4252, 0x434c5e, 0x4c566a, 0xeceff4, 0x9aa5b8, 0x88c0d0, 0xbf616a, 0xebcb8b, 0xa3be8c, 0xa3be8c, 0xbf616a, 0x81a1c1, 0x4c566a),
    });
    out.push(Preset {
        id: "dracula",
        name: "Dracula",
        colors: palette(0x282a36, 0x343746, 0x44475a, 0x515570, 0xf8f8f2, 0xa3a7c2, 0xbd93f9, 0xff5555, 0xf1fa8c, 0x50fa7b, 0x50fa7b, 0xff5555, 0x8be9fd, 0x44475a),
    });
    out.push(Preset {
        id: "tokyo-night",
        name: "Tokyo Night",
        colors: palette(0x1a1b26, 0x24283b, 0x2f3549, 0x3b4261, 0xc0caf5, 0x7a83a6, 0x7aa2f7, 0xf7768e, 0xe0af68, 0x9ece6a, 0x9ece6a, 0xf7768e, 0x7dcfff, 0x3b4261),
    });
    out.push(Preset {
        id: "catppuccin-mocha",
        name: "Catppuccin Mocha",
        colors: palette(0x1e1e2e, 0x313244, 0x45475a, 0x585b70, 0xcdd6f4, 0xa6adc8, 0xcba6f7, 0xf38ba8, 0xf9e2af, 0xa6e3a1, 0xa6e3a1, 0xf38ba8, 0x89b4fa, 0x45475a),
    });
    out.push(Preset {
        id: "gruvbox-dark",
        name: "Gruvbox Dark",
        colors: palette(0x282828, 0x3c3836, 0x504945, 0x665c54, 0xebdbb2, 0xa89984, 0xfabd2f, 0xfb4934, 0xfabd2f, 0xb8bb26, 0xb8bb26, 0xfb4934, 0x83a598, 0x504945),
    });
    out.push(Preset {
        id: "one-dark",
        name: "One Dark",
        colors: palette(0x282c34, 0x2c313a, 0x3e4451, 0x4b5263, 0xabb2bf, 0x7f848e, 0x61afef, 0xe06c75, 0xe5c07b, 0x98c379, 0x98c379, 0xe06c75, 0x61afef, 0x3e4451),
    });
    out.push(Preset {
        id: "solarized-dark",
        name: "Solarized Dark",
        colors: palette(0x002b36, 0x073642, 0x0e4554, 0x1a5563, 0x93a1a1, 0x6c8089, 0x268bd2, 0xdc322f, 0xb58900, 0x859900, 0x859900, 0xdc322f, 0x2aa198, 0x1a5563),
    });
    out.push(Preset {
        id: "wyck-light",
        name: "Wyck Light",
        colors: palette(0xffffff, 0xf4f4f5, 0xe9e9ec, 0xdcdce0, 0x18181b, 0x6b6b76, 0x5b5bd6, 0xdc2626, 0xd97706, 0x059669, 0x089981, 0xf23645, 0x2962ff, 0xe4e4e7),
    });
    out.push(Preset {
        id: "github-light",
        name: "GitHub Light",
        colors: palette(0xffffff, 0xf6f8fa, 0xeaeef2, 0xd0d7de, 0x1f2328, 0x656d76, 0x0969da, 0xcf222e, 0x9a6700, 0x1a7f37, 0x1a7f37, 0xcf222e, 0x0969da, 0xd0d7de),
    });
    out.push(Preset {
        id: "catppuccin-latte",
        name: "Catppuccin Latte",
        colors: palette(0xeff1f5, 0xe6e9ef, 0xccd0da, 0xbcc0cc, 0x4c4f69, 0x6c6f85, 0x8839ef, 0xd20f39, 0xdf8e1d, 0x40a02b, 0x40a02b, 0xd20f39, 0x1e66f5, 0xccd0da),
    });
    out.push(Preset {
        id: "solarized-light",
        name: "Solarized Light",
        colors: palette(0xfdf6e3, 0xeee8d5, 0xe4ddc4, 0xd8d0b4, 0x586e75, 0x657b83, 0x268bd2, 0xdc322f, 0xb58900, 0x859900, 0x859900, 0xdc322f, 0x268bd2, 0xd8d0b4),
    });
    out.push(Preset {
        id: "gruvbox-light",
        name: "Gruvbox Light",
        colors: palette(0xfbf1c7, 0xebdbb2, 0xd5c4a1, 0xbdae93, 0x3c3836, 0x7c6f64, 0xb57614, 0x9d0006, 0xb57614, 0x79740e, 0x79740e, 0x9d0006, 0x076678, 0xd5c4a1),
    });
    out.push(Preset {
        id: "paper",
        name: "Paper",
        colors: palette(0xfafaf7, 0xf1f0ea, 0xe7e5dc, 0xdcd9cd, 0x2b2b2b, 0x77756b, 0x2f6f4f, 0xb42318, 0xb54708, 0x2f6f4f, 0x2f6f4f, 0xb42318, 0x335c8a, 0xdcd9cd),
    });
    proof {
        assert(out@ =~= preset_table());
    }
    out
}

/// Ready-made candle colors: a name, and the color of a rising and of a falling candle.
pub open spec fn candle_table() -> Seq<(&'static str, u32, u32)> {
    seq![
        ("Classic", 0x26a69a, 0xef5350),
        ("Green and red", 0x22c55e, 0xef4444),
        ("Blue and orange", 0x3b82f6, 0xf97316),
        ("Blue and red", 0x2962ff, 0xf23645),
        ("Teal and pink", 0x14b8a6, 0xec4899),
        ("Gold and violet", 0xeab308, 0x8b5cf6),
        ("Monochrome", 0xe5e5e5, 0x6b6b6b),
        ("Neon", 0x00ff9c, 0xff2e63),
    ]
}

/// Ready-made candle colors: a name, and the color of a rising and of a falling candle.
pub fn candle_sets() -> (out: Vec<(&'static str, u32, u32)>)
    ensures
        out@ == candle_table(),
{
    let mut out: Vec<(&'static str, u32, u32)> = Vec::new();
    out.push(("Classic", 0x26a69a, 0xef5350));
    out.push(("Green and red", 0x22c55e, 0xef4444));
    out.push(("Blue and orange", 0x3b82f6, 0xf97316));
    out.push(("Blue and red", 0x2962ff, 0xf23645));
    out.push(("Teal and pink", 0x14b8a6, 0xec4899));
    out.push(("Gold and violet", 0xeab308, 0x8b5cf6));
    out.push(("Monochrome", 0xe5e5e5, 0x6b6b6b));
    out.push(("Neon", 0x00ff9c, 0xff2e63));
    proof {
        assert(out@ =~= candle_table());
    }
    out
}

/// Whether the preset at `k` of the table is the first one saved under `id`.
pub open spec fn first_with_id(id: Seq<char>, k: int) -> bool {
    &&& 0 <= k < preset_table().len()
    &&& preset_table()[k].id@ == id
    &&& forall|j: int| 0 <= j < k ==> (#[trigger] preset_table()[j]).id@ != id
}

/// The theme that comes with the app under `id`.
pub fn preset(id: &str) -> (r: Option<Preset>)
    ensures
        r is None <==> forall|k: int| 0 <= k < preset_table().len() ==> (#[trigger] preset_table()[k]).id@ != id@,
        r matches Some(p) ==> exists|k: int| #[trigger] first_with_id(id@, k) && preset_table()[k] == p,
{
    let all = presets();
    let wanted = chars_of(id);
    let mut i: usize = 0;
    while i < all.len()
        invariant
            all@ == preset_table(),
            wanted@ == id@,
            i <= all@.len(),
            forall|j: int| 0 <= j < i ==> (#[trigger] preset_table()[j]).id@ != id@,
        decreases all@.len() - i,
    {
        let p = all[i];
        let here = chars_of(p.id);
        if same_chars(&here, &wanted) {
            assert(first_with_id(id@, i as int));
            return Some(p);
        }
        i = i + 1;
    }
    None
}

/// The ids and names of the themes at `i` and `j` differ.
proof fn lemma_presets_differ(i: int, j: int)
    requires
        0 <= i < j < preset_table().len(),
    ensures
        preset_table()[i].id@ != preset_table()[j].id@,
        preset_table()[i].name@ != preset_table()[j].name@,
{
    let t = preset_table();
    if i == 0 {
        if j == 1 {
                reveal_strlit("wyck-dark");
                reveal_strlit("midnight");
                reveal_strlit("Wyck Dark");
                reveal_strlit("Midnight");
                assert(t[0].id@.len() != t[1].id@.len());
                assert(t[0].name@.len() != t[1].name@.len());
        } else if j == 2 {
                reveal_strlit("wyck-dark");
                reveal_strlit("graphite");
                reveal_strlit("Wyck Dark");
                reveal_strlit("Graphite");
                assert(t[0].id@.len() != t[2].id@.len());
                assert(t[0].name@.len() != t[2].name@.len());
        } else if j == 3 {
                reveal_strlit("wyck-dark");
                reveal_strlit("nord");
                reveal_strlit("Wyck Dark");
                reveal_strlit("Nord");
                assert(t[0].id@.len() != t[3].id@.len());
                assert(t[0].name@.len() != t[3].name@.len());
        } else if j == 4 {
                reveal_strlit("wyck-dark");
                reveal_strlit("dracula");
                reveal_strlit("Wyck Dark");
                reveal_strlit("Dracula");
                assert(t[0].id@.len() != t[4].id@.len());
                assert(t[0].name@.len() != t[4].name@.len());
        } else if j == 5 {
                reveal_strlit("wyck-dark");
                reveal_strlit("tokyo-night");
                reveal_strlit("Wyck Dark");
                reveal_strlit("Tokyo Night");
                assert(t[0].id@.len() != t[5].id@.len());
                assert(t[0].name@.len() != t[5].name@.len());
        } else if j == 6 {
                reveal_strlit("wyck-dark");
                reveal_strlit("catppuccin-mocha");
                reveal_strlit("Wyck Dark");
                reveal_strlit("Catppuccin Mocha");
                assert(t[0].id@.len() != t[6].id@.len());
                assert(t[0].name@.len() != t[6].name@.len());
        } else if j == 7 {
                reveal_strlit("wyck-dark");
                reveal_strlit("gruvbox-dark");
                reveal_strlit("Wyck Dark");
                reveal_strlit("Gruvbox Dark");
                assert(t[0].id@.len() != t[7].id@.len());
                assert(t[0].name@.len() != t[7].name@.len());
        } else if j == 8 {
                reveal_strlit("wyck-dark");
                reveal_strlit("one-dark");
                reveal_strlit("Wyck Dark");
                reveal_strlit("One Dark");
                assert(t[0].id@.len() != t[8].id@.len());
                assert(t[0].name@.len() != t[8].name@.len());
        } else if j == 9 {
                reveal_strlit("wyck-dark");
                reveal_strlit("solarized-dark");
                reveal_strlit("Wyck Dark");
                reveal_strlit("Solarized Dark");
                assert(t[0].id@.len() != t[9].id@.len());
                assert(t[0].name@.len() != t[9].name@.len());
        } else if j == 10 {
                reveal_strlit("wyck-dark");
                reveal_strlit("wyck-light");
                reveal_strlit("Wyck Dark");
                reveal_strlit("Wyck Light");
                assert(t[0].id@.len() != t[10].id@.len());
                assert(t[0].name@.len() != t[10].name@.len());
        } else if j == 11 {
                reveal_strlit("wyck-dark");
                reveal_strlit("github-light");
                reveal_strlit("Wyck Dark");
                reveal_strlit("GitHub Light");
                assert(t[0].id@.len() != t[11].id@.len());
                assert(t[0].name@.len() != t[11].name@.len());
        } else if j == 12 {
                reveal_strlit("wyck-dark");
                reveal_strlit("catppuccin-latte");
                reveal_strlit("Wyck Dark");
                reveal_strlit("Catppuccin Latte");
                assert(t[0].id@.len() != t[12].id@.len());
                assert(t[0].name@.len() != t[12].name@.len());
        } else if j == 13 {
                reveal_strlit("wyck-dark");
                reveal_strlit("solarized-light");
                reveal_strlit("Wyck Dark");
                reveal_strlit("Solarized Light");
                assert(t[0].id@.len() != t[13].id@.len());
                assert(t[0].name@.len() != t[13].name@.len());
        } else if j == 14 {
                reveal_strlit("wyck-dark");
                reveal_strlit("gruvbox-light");
                reveal_strlit("Wyck Dark");
                reveal_strlit("Gruvbox Light");
                assert(t[0].id@.len() != t[14].id@.len());
                assert(t[0].name@.len() != t[14].name@.len());
        } else if j == 15 {
                reveal_strlit("wyck-dark");
                reveal_strlit("paper");
                reveal_strlit("Wyck Dark");
                reveal_strlit("Paper");
                assert(t[0].id@.len() != t[15].id@.len());
                assert(t[0].name@.len() != t[15].name@.len());
        }
    } else if i == 1 {
        if j == 2 {
                reveal_strlit("midnight");
                reveal_strlit("graphite");
                reveal_strlit("Midnight");
                reveal_strlit("Graphite");
                assert(t[1].id@[0] != t[2].id@[0]);
                assert(t[1].name@[0] != t[2].name@[0]);
        } else if j == 3 {
                reveal_strlit("midnight");
                reveal_strlit("nord");
                reveal_strlit("Midnight");
                reveal_strlit("Nord");
                assert(t[1].id@.len() != t[3].id@.len());
                assert(t[1].name@.len() != t[3].name@.len());
        } else if j == 4 {
                reveal_strlit("midnight");
                reveal_strlit("dracula");
                reveal_strlit("Midnight");
                reveal_strlit("Dracula");
                assert(t[1].id@.len() != t[4].id@.len());
                assert(t[1].name@.len() != t[4].name@.len());
        } else if j == 5 {
                reveal_strlit("midnight");
                reveal_strlit("tokyo-night");
                reveal_strlit("Midnight");
                reveal_strlit("Tokyo Night");
                assert(t[1].id@.len() != t[5].id@.len());
                assert(t[1].name@.len() != t[5].name@.len());
        } else if j == 6 {
                reveal_strlit("midnight");
                reveal_strlit("catppuccin-mocha");
                reveal_strlit("Midnight");
                reveal_strlit("Catppuccin Mocha");
                assert(t[1].id@.len() != t[6].id@.len());
                assert(t[1].name@.len() != t[6].name@.len());
        } else if j == 7 {
                reveal_strlit("midnight");
                reveal_strlit("gruvbox-dark");
                reveal_strlit("Midnight");
                reveal_strlit("Gruvbox Dark");
                assert(t[1].id@.len() != t[7].id@.len());
                assert(t[1].name@.len() != t[7].name@.len());
        } else if j == 8 {
                reveal_strlit("midnight");
                reveal_strlit("one-dark");
                reveal_strlit("Midnight");
                reveal_strlit("One Dark");
                assert(t[1].id@[0] != t[8].id@[0]);
                assert(t[1].name@[0] != t[8].name@[0]);
        } else if j == 9 {
                reveal_strlit("midnight");
                reveal_strlit("solarized-dark");
                reveal_strlit("Midnight");
                reveal_strlit("Solarized Dark");
                assert(t[1].id@.len() != t[9].id@.len());
                assert(t[1].name@.len() != t[9].name@.len());
        } else if j == 10 {
                reveal_strlit("midnight");
                reveal_strlit("wyck-light");
                reveal_strlit("Midnight");
                reveal_strlit("Wyck Light");
                assert(t[1].id@.len() != t[10].id@.len());
                assert(t[1].name@.len() != t[10].name@.len());
        } else if j == 11 {
                reveal_strlit("midnight");
                reveal_strlit("github-light");
                reveal_strlit("Midnight");
                reveal_strlit("GitHub Light");
                assert(t[1].id@.len() != t[11].id@.len());
                assert(t[1].name@.len() != t[11].name@.len());
        } else if j == 12 {
                reveal_strlit("midnight");
                reveal_strlit("catppuccin-latte");
                reveal_strlit("Midnight");
                reveal_strlit("Catppuccin Latte");
                assert(t[1].id@.len() != t[12].id@.len());
                assert(t[1].name@.len() != t[12].name@.len());
        } else if j == 13 {
                reveal_strlit("midnight");
                reveal_strlit("solarized-light");
                reveal_strlit("Midnight");
                reveal_strlit("Solarized Light");
                assert(t[1].id@.len() != t[13].id@.len());
                assert(t[1].name@.len() != t[13].name@.len());
        } else if j == 14 {
                reveal_strlit("midnight");
                reveal_strlit("gruvbox-light");
                reveal_strlit("Midnight");
                reveal_strlit("Gruvbox Light");
                assert(t[1].id@.len() != t[14].id@.len());
                assert(t[1].name@.len() != t[14].name@.len());
        } else if j == 15 {
                reveal_strlit("midnight");
                reveal_strlit("paper");
                reveal_strlit("Midnight");
                reveal_strlit("Paper");
                assert(t[1].id@.len() != t[15].id@.len());
                assert(t[1].name@.len() != t[15].name@.len());
        }
    } else if i == 2 {
        if j == 3 {
                reveal_strlit("graphite");
                reveal_strlit("nord");
                reveal_strlit("Graphite");
                reveal_strlit("Nord");
                assert(t[2].id@.len() != t[3].id@.len());
                assert(t[2].name@.len() != t[3].name@.len());
        } else if j == 4 {
                reveal_strlit("graphite");
                reveal_strlit("dracula");
                reveal_strlit("Graphite");
                reveal_strlit("Dracula");
                assert(t[2].id@.len() != t[4].id@.len());
                assert(t[2].name@.len() != t[4].name@.len());
        } else if j == 5 {
                reveal_strlit("graphite");
                reveal_strlit("tokyo-night");
                reveal_strlit("Graphite");
                reveal_strlit("Tokyo Night");
                assert(t[2].id@.len() != t[5].id@.len());
                assert(t[2].name@.len() != t[5].name@.len());
        } else if j == 6 {
                reveal_strlit("graphite");
                reveal_strlit("catppuccin-mocha");
                reveal_strlit("Graphite");
                reveal_strlit("Catppuccin Mocha");
                assert(t[2].id@.len() != t[6].id@.len());
                assert(t[2].name@.len() != t[6].name@.len());
        } else if j == 7 {
                reveal_strlit("graphite");
                reveal_strlit("gruvbox-dark");
                reveal_strlit("Graphite");
                reveal_strlit("Gruvbox Dark");
                assert(t[2].id@.len() != t[7].id@.len());
                assert(t[2].name@.len() != t[7].name@.len());
        } else if j == 8 {
                reveal_strlit("graphite");
                reveal_strlit("one-dark");
                reveal_strlit("Graphite");
                reveal_strlit("One Dark");
                assert(t[2].id@[0] != t[8].id@[0]);
                assert(t[2].name@[0] != t[8].name@[0]);
        } else if j == 9 {
                reveal_strlit("graphite");
                reveal_strlit("solarized-dark");
                reveal_strlit("Graphite");
                reveal_strlit("Solarized Dark");
                assert(t[2].id@.len() != t[9].id@.len());
                assert(t[2].name@.len() != t[9].name@.len());
        } else if j == 10 {
                reveal_strlit("graphite");
                reveal_strlit("wyck-light");
                reveal_strlit("Graphite");
                reveal_strlit("Wyck Light");
                assert(t[2].id@.len() != t[10].id@.len());
                assert(t[2].name@.len() != t[10].name@.len());
        } else if j == 11 {
                reveal_strlit("graphite");
                reveal_strlit("github-light");
                reveal_strlit("Graphite");
                reveal_strlit("GitHub Light");
                assert(t[2].id@.len() != t[11].id@.len());
                assert(t[2].name@.len() != t[11].name@.len());
        } else if j == 12 {
                reveal_strlit("graphite");
                reveal_strlit("catppuccin-latte");
                reveal_strlit("Graphite");
                reveal_strlit("Catppuccin Latte");
                assert(t[2].id@.len() != t[12].id@.len());
                assert(t[2].name@.len() != t[12].name@.len());
        } else if j == 13 {
                reveal_strlit("graphite");
                reveal_strlit("solarized-light");
                reveal_strlit("Graphite");
                reveal_strlit("Solarized Light");
                assert(t[2].id@.len() != t[13].id@.len());
                assert(t[2].name@.len() != t[13].name@.len());
        } else if j == 14 {
                reveal_strlit("graphite");
                reveal_strlit("gruvbox-light");
                reveal_strlit("Graphite");
                reveal_strlit("Gruvbox Light");
                assert(t[2].id@.len() != t[14].id@.len());
                assert(t[2].name@.len() != t[14].name@.len());
        } else if j == 15 {
                reveal_strlit("graphite");
                reveal_strlit("paper");
                reveal_strlit("Graphite");
                reveal_strlit("Paper");
                assert(t[2].id@.len() != t[15].id@.len());
                assert(t[2].name@.len() != t[15].name@.len());
        }
    } else if i == 3 {
        if j == 4 {
                reveal_strlit("nord");
                reveal_strlit("dracula");
                reveal_strlit("Nord");
                reveal_strlit("Dracula");
                assert(t[3].id@.len() != t[4].id@.len());
                assert(t[3].name@.len() != t[4].name@.len());
        } else if j == 5 {
                reveal_strlit("nord");
                reveal_strlit("tokyo-night");
                reveal_strlit("Nord");
                reveal_strlit("Tokyo Night");
                assert(t[3].id@.len() != t[5].id@.len());
                assert(t[3].name@.len() != t[5].name@.len());
        } else if j == 6 {
                reveal_strlit("nord");
                reveal_strlit("catppuccin-mocha");
                reveal_strlit("Nord");
                reveal_strlit("Catppuccin Mocha");
                assert(t[3].id@.len() != t[6].id@.len());
                assert(t[3].name@.len() != t[6].name@.len());
        } else if j == 7 {
                reveal_strlit("nord");
                reveal_strlit("gruvbox-dark");
                reveal_strlit("Nord");
                reveal_strlit("Gruvbox Dark");
                assert(t[3].id@.len() != t[7].id@.len());
                assert(t[3].name@.len() != t[7].name@.len());
        } else if j == 8 {
                reveal_strlit("nord");
                reveal_strlit("one-dark");
                reveal_strlit("Nord");
                reveal_strlit("One Dark");
                assert(t[3].id@.len() != t[8].id@.len());
                assert(t[3].name@.len() != t[8].name@.len());
        } else if j == 9 {
                reveal_strlit("nord");
                reveal_strlit("solarized-dark");
                reveal_strlit("Nord");
                reveal_strlit("Solarized Dark");
                assert(t[3].id@.len() != t[9].id@.len());
                assert(t[3].name@.len() != t[9].name@.len());
        } else if j == 10 {
                reveal_strlit("nord");
                reveal_strlit("wyck-light");
                reveal_strlit("Nord");
                reveal_strlit("Wyck Light");
                assert(t[3].id@.len() != t[10].id@.len());
                assert(t[3].name@.len() != t[10].name@.len());
        } else if j == 11 {
                reveal_strlit("nord");
                reveal_strlit("github-light");
                reveal_strlit("Nord");
                reveal_strlit("GitHub Light");
                assert(t[3].id@.len() != t[11].id@.len());
                assert(t[3].name@.len() != t[11].name@.len());
        } else if j == 12 {
                reveal_strlit("nord");
                reveal_strlit("catppuccin-latte");
                reveal_strlit("Nord");
                reveal_strlit("Catppuccin Latte");
                assert(t[3].id@.len() != t[12].id@.len());
                assert(t[3].name@.len() != t[12].name@.len());
        } else if j == 13 {
                reveal_strlit("nord");
                reveal_strlit("solarized-light");
                reveal_strlit("Nord");
                reveal_strlit("Solarized Light");
                assert(t[3].id@.len() != t[13].id@.len());
                assert(t[3].name@.len() != t[13].name@.len());
        } else if j == 14 {
                reveal_strlit("nord");
                reveal_strlit("gruvbox-light");
                reveal_strlit("Nord");
                reveal_strlit("Gruvbox Light");
                assert(t[3].id@.len() != t[14].id@.len());
                assert(t[3].name@.len() != t[14].name@.len());
        } else if j == 15 {
                reveal_strlit("nord");
                reveal_strlit("paper");
                reveal_strlit("Nord");
                reveal_strlit("Paper");
                assert(t[3].id@.len() != t[15].id@.len());
                assert(t[3].name@.len() != t[15].name@.len());
        }
    } else if i == 4 {
        if j == 5 {
                reveal_strlit("dracula");
                reveal_strlit("tokyo-night");
                reveal_strlit("Dracula");
                reveal_strlit("Tokyo Night");
                assert(t[4].id@.len() != t[5].id@.len());
                assert(t[4].name@.len() != t[5].name@.len());
        } else if j == 6 {
                reveal_strlit("dracula");
                reveal_strlit("catppuccin-mocha");
                reveal_strlit("Dracula");
                reveal_strlit("Catppuccin Mocha");
                assert(t[4].id@.len() != t[6].id@.len());
                assert(t[4].name@.len() != t[6].name@.len());
        } else if j == 7 {
                reveal_strlit("dracula");
                reveal_strlit("gruvbox-dark");
                reveal_strlit("Dracula");
                reveal_strlit("Gruvbox Dark");
                assert(t[4].id@.len() != t[7].id@.len());
                assert(t[4].name@.len() != t[7].name@.len());
        } else if j == 8 {
                reveal_strlit("dracula");
                reveal_strlit("one-dark");
                reveal_strlit("Dracula");
                reveal_strlit("One Dark");
                assert(t[4].id@.len() != t[8].id@.len());
                assert(t[4].name@.len() != t[8].name@.len());
        } else if j == 9 {
                reveal_strlit("dracula");
                reveal_strlit("solarized-dark");
                reveal_strlit("Dracula");
                reveal_strlit("Solarized Dark");
                assert(t[4].id@.len() != t[9].id@.len());
                assert(t[4].name@.len() != t[9].name@.len());
        } else if j == 10 {
                reveal_strlit("dracula");
                reveal_strlit("wyck-light");
                reveal_strlit("Dracula");
                reveal_strlit("Wyck Light");
                assert(t[4].id@.len() != t[10].id@.len());
                assert(t[4].name@.len() != t[10].name@.len());
        } else if j == 11 {
                reveal_strlit("dracula");
                reveal_strlit("github-light");
                reveal_strlit("Dracula");
                reveal_strlit("GitHub Light");
                assert(t[4].id@.len() != t[11].id@.len());
                assert(t[4].name@.len() != t[11].name@.len());
        } else if j == 12 {
                reveal_strlit("dracula");
                reveal_strlit("catppuccin-latte");
                reveal_strlit("Dracula");
                reveal_strlit("Catppuccin Latte");
                assert(t[4].id@.len() != t[12].id@.len());
                assert(t[4].name@.len() != t[12].name@.len());
        } else if j == 13 {
                reveal_strlit("dracula");
                reveal_strlit("solarized-light");
                reveal_strlit("Dracula");
                reveal_strlit("Solarized Light");
                assert(t[4].id@.len() != t[13].id@.len());
                assert(t[4].name@.len() != t[13].name@.len());
        } else if j == 14 {
                reveal_strlit("dracula");
                reveal_strlit("gruvbox-light");
                reveal_strlit("Dracula");
                reveal_strlit("Gruvbox Light");
                assert(t[4].id@.len() != t[14].id@.len());
                assert(t[4].name@.len() != t[14].name@.len());
        } else if j == 15 {
                reveal_strlit("dracula");
                reveal_strlit("paper");
                reveal_strlit("Dracula");
                reveal_strlit("Paper");
                assert(t[4].id@.len() != t[15].id@.len());
                assert(t[4].name@.len() != t[15].name@.len());
        }
    } else if i == 5 {
        if j == 6 {
                reveal_strlit("tokyo-night");
                reveal_strlit("catppuccin-mocha");
                reveal_strlit("Tokyo Night");
                reveal_strlit("Catppuccin Mocha");
                assert(t[5].id@.len() != t[6].id@.len());
                assert(t[5].name@.len() != t[6].name@.len());
        } else if j == 7 {
                reveal_strlit("tokyo-night");
                reveal_strlit("gruvbox-dark");
                reveal_strlit("Tokyo Night");
                reveal_strlit("Gruvbox Dark");
                assert(t[5].id@.len() != t[7].id@.len());
                assert(t[5].name@.len() != t[7].name@.len());
        } else if j == 8 {
                reveal_strlit("tokyo-night");
                reveal_strlit("one-dark");
                reveal_strlit("Tokyo Night");
                reveal_strlit("One Dark");
                assert(t[5].id@.len() != t[8].id@.len());
                assert(t[5].name@.len() != t[8].name@.len());
        } else if j == 9 {
                reveal_strlit("tokyo-night");
                reveal_strlit("solarized-dark");
                reveal_strlit("Tokyo Night");
                reveal_strlit("Solarized Dark");
                assert(t[5].id@.len() != t[9].id@.len());
                assert(t[5].name@.len() != t[9].name@.len());
        } else if j == 10 {
                reveal_strlit("tokyo-night");
                reveal_strlit("wyck-light");
                reveal_strlit("Tokyo Night");
                reveal_strlit("Wyck Light");
                assert(t[5].id@.len() != t[10].id@.len());
                assert(t[5].name@.len() != t[10].name@.len());
        } else if j == 11 {
                reveal_strlit("tokyo-night");
                reveal_strlit("github-light");
                reveal_strlit("Tokyo Night");
                reveal_strlit("GitHub Light");
                assert(t[5].id@.len() != t[11].id@.len());
                assert(t[5].name@.len() != t[11].name@.len());
        } else if j == 12 {
                reveal_strlit("tokyo-night");
                reveal_strlit("catppuccin-latte");
                reveal_strlit("Tokyo Night");
                reveal_strlit("Catppuccin Latte");
                assert(t[5].id@.len() != t[12].id@.len());
                assert(t[5].name@.len() != t[12].name@.len());
        } else if j == 13 {
                reveal_strlit("tokyo-night");
                reveal_strlit("solarized-light");
                reveal_strlit("Tokyo Night");
                reveal_strlit("Solarized Light");
                assert(t[5].id@.len() != t[13].id@.len());
                assert(t[5].name@.len() != t[13].name@.len());
        } else if j == 14 {
                reveal_strlit("tokyo-night");
                reveal_strlit("gruvbox-light");
                reveal_strlit("Tokyo Night");
                reveal_strlit("Gruvbox Light");
                assert(t[5].id@.len() != t[14].id@.len());
                assert(t[5].name@.len() != t[14].name@.len());
        } else if j == 15 {
                reveal_strlit("tokyo-night");
                reveal_strlit("paper");
                reveal_strlit("Tokyo Night");
                reveal_strlit("Paper");
                assert(t[5].id@.len() != t[15].id@.len());
                assert(t[5].name@.len() != t[15].name@.len());
        }
    } else if i == 6 {
        if j == 7 {
                reveal_strlit("catppuccin-mocha");
                reveal_strlit("gruvbox-dark");
                reveal_strlit("Catppuccin Mocha");
                reveal_strlit("Gruvbox Dark");
                assert(t[6].id@.len() != t[7].id@.len());
                assert(t[6].name@.len() != t[7].name@.len());
        } else if j == 8 {
                reveal_strlit("catppuccin-mocha");
                reveal_strlit("one-dark");
                reveal_strlit("Catppuccin Mocha");
                reveal_strlit("One Dark");
                assert(t[6].id@.len() != t[8].id@.len());
                assert(t[6].name@.len() != t[8].name@.len());
        } else if j == 9 {
                reveal_strlit("catppuccin-mocha");
                reveal_strlit("solarized-dark");
                reveal_strlit("Catppuccin Mocha");
                reveal_strlit("Solarized Dark");
                assert(t[6].id@.len() != t[9].id@.len());
                assert(t[6].name@.len() != t[9].name@.len());
        } else if j == 10 {
                reveal_strlit("catppuccin-mocha");
                reveal_strlit("wyck-light");
                reveal_strlit("Catppuccin Mocha");
                reveal_strlit("Wyck Light");
                assert(t[6].id@.len() != t[10].id@.len());
                assert(t[6].name@.len() != t[10].name@.len());
        } else if j == 11 {
                reveal_strlit("catppuccin-mocha");
                reveal_strlit("github-light");
                reveal_strlit("Catppuccin Mocha");
                reveal_strlit("GitHub Light");
                assert(t[6].id@.len() != t[11].id@.len());
                assert(t[6].name@.len() != t[11].name@.len());
        } else if j == 12 {
                reveal_strlit("catppuccin-mocha");
                reveal_strlit("catppuccin-latte");
                reveal_strlit("Catppuccin Mocha");
                reveal_strlit("Catppuccin Latte");
                assert(t[6].id@[11] != t[12].id@[11]);
                assert(t[6].name@[11] != t[12].name@[11]);
        } else if j == 13 {
                reveal_strlit("catppuccin-mocha");
                reveal_strlit("solarized-light");
                reveal_strlit("Catppuccin Mocha");
                reveal_strlit("Solarized Light");
                assert(t[6].id@.len() != t[13].id@.len());
                assert(t[6].name@.len() != t[13].name@.len());
        } else if j == 14 {
                reveal_strlit("catppuccin-mocha");
                reveal_strlit("gruvbox-light");
                reveal_strlit("Catppuccin Mocha");
                reveal_strlit("Gruvbox Light");
                assert(t[6].id@.len() != t[14].id@.len());
                assert(t[6].name@.len() != t[14].name@.len());
        } else if j == 15 {
                reveal_strlit("catppuccin-mocha");
                reveal_strlit("paper");
                reveal_strlit("Catppuccin Mocha");
                reveal_strlit("Paper");
                assert(t[6].id@.len() != t[15].id@.len());
                assert(t[6].name@.len() != t[15].name@.len());
        }
    } else if i == 7 {
        if j == 8 {
                reveal_strlit("gruvbox-dark");
                reveal_strlit("one-dark");
                reveal_strlit("Gruvbox Dark");
                reveal_strlit("One Dark");
                assert(t[7].id@.len() != t[8].id@.len());
                assert(t[7].name@.len() != t[8].name@.len());
        } else if j == 9 {
                reveal_strlit("gruvbox-dark");
                reveal_strlit("solarized-dark");
                reveal_strlit("Gruvbox Dark");
                reveal_strlit("Solarized Dark");
                assert(t[7].id@.len() != t[9].id@.len());
                assert(t[7].name@.len() != t[9].name@.len());
        } else if j == 10 {
                reveal_strlit("gruvbox-dark");
                reveal_strlit("wyck-light");
                reveal_strlit("Gruvbox Dark");
                reveal_strlit("Wyck Light");
                assert(t[7].id@.len() != t[10].id@.len());
                assert(t[7].name@.len() != t[10].name@.len());
        } else if j == 11 {
                reveal_strlit("gruvbox-dark");
                reveal_strlit("github-light");
                reveal_strlit("Gruvbox Dark");
                reveal_strlit("GitHub Light");
                assert(t[7].id@[1] != t[11].id@[1]);
                assert(t[7].name@[1] != t[11].name@[1]);
        } else if j == 12 {
                reveal_strlit("gruvbox-dark");
                reveal_strlit("catppuccin-latte");
                reveal_strlit("Gruvbox Dark");
                reveal_strlit("Catppuccin Latte");
                assert(t[7].id@.len() != t[12].id@.len());
                assert(t[7].name@.len() != t[12].name@.len());
        } else if j == 13 {
                reveal_strlit("gruvbox-dark");
                reveal_strlit("solarized-light");
                reveal_strlit("Gruvbox Dark");
                reveal_strlit("Solarized Light");
                assert(t[7].id@.len() != t[13].id@.len());
                assert(t[7].name@.len() != t[13].name@.len());
        } else if j == 14 {
                reveal_strlit("gruvbox-dark");
                reveal_strlit("gruvbox-light");
                reveal_strlit("Gruvbox Dark");
                reveal_strlit("Gruvbox Light");
                assert(t[7].id@.len() != t[14].id@.len());
                assert(t[7].name@.len() != t[14].name@.len());
        } else if j == 15 {
                reveal_strlit("gruvbox-dark");
                reveal_strlit("paper");
                reveal_strlit("Gruvbox Dark");
                reveal_strlit("Paper");
                assert(t[7].id@.len() != t[15].id@.len());
                assert(t[7].name@.len() != t[15].name@.len());
        }
    } else if i == 8 {
        if j == 9 {
                reveal_strlit("one-dark");
                reveal_strlit("solarized-dark");
                reveal_strlit("One Dark");
                reveal_strlit("Solarized Dark");
                assert(t[8].id@.len() != t[9].id@.len());
                assert(t[8].name@.len() != t[9].name@.len());
        } else if j == 10 {
                reveal_strlit("one-dark");
                reveal_strlit("wyck-light");
                reveal_strlit("One Dark");
                reveal_strlit("Wyck Light");
                assert(t[8].id@.len() != t[10].id@.len());
                assert(t[8].name@.len() != t[10].name@.len());
        } else if j == 11 {
                reveal_strlit("one-dark");
                reveal_strlit("github-light");
                reveal_strlit("One Dark");
                reveal_strlit("GitHub Light");
                assert(t[8].id@.len() != t[11].id@.len());
                assert(t[8].name@.len() != t[11].name@.len());
        } else if j == 12 {
                reveal_strlit("one-dark");
                reveal_strlit("catppuccin-latte");
                reveal_strlit("One Dark");
                reveal_strlit("Catppuccin Latte");
                assert(t[8].id@.len() != t[12].id@.len());
                assert(t[8].name@.len() != t[12].name@.len());
        } else if j == 13 {
                reveal_strlit("one-dark");
                reveal_strlit("solarized-light");
                reveal_strlit("One Dark");
                reveal_strlit("Solarized Light");
                assert(t[8].id@.len() != t[13].id@.len());
                assert(t[8].name@.len() != t[13].name@.len());
        } else if j == 14 {
                reveal_strlit("one-dark");
                reveal_strlit("gruvbox-light");
                reveal_strlit("One Dark");
                reveal_strlit("Gruvbox Light");
                assert(t[8].id@.len() != t[14].id@.len());
                assert(t[8].name@.len() != t[14].name@.len());
        } else if j == 15 {
                reveal_strlit("one-dark");
                reveal_strlit("paper");
                reveal_strlit("One Dark");
                reveal_strlit("Paper");
                assert(t[8].id@.len() != t[15].id@.len());
                assert(t[8].name@.len() != t[15].name@.len());
        }
    } else if i == 9 {
        if j == 10 {
                reveal_strlit("solarized-dark");
                reveal_strlit("wyck-light");
                reveal_strlit("Solarized Dark");
                reveal_strlit("Wyck Light");
                assert(t[9].id@.len() != t[10].id@.len());
                assert(t[9].name@.len() != t[10].name@.len());
        } else if j == 11 {
                reveal_strlit("solarized-dark");
                reveal_strlit("github-light");
                reveal_strlit("Solarized Dark");
                reveal_strlit("GitHub Light");
                assert(t[9].id@.len() != t[11].id@.len());
                assert(t[9].name@.len() != t[11].name@.len());
        } else if j == 12 {
                reveal_strlit("solarized-dark");
                reveal_strlit("catppuccin-latte");
                reveal_strlit("Solarized Dark");
                reveal_strlit("Catppuccin Latte");
                assert(t[9].id@.len() != t[12].id@.len());
                assert(t[9].name@.len() != t[12].name@.len());
        } else if j == 13 {
                reveal_strlit("solarized-dark");
                reveal_strlit("solarized-light");
                reveal_strlit("Solarized Dark");
                reveal_strlit("Solarized Light");
                assert(t[9].id@.len() != t[13].id@.len());
                assert(t[9].name@.len() != t[13].name@.len());
        } else if j == 14 {
                reveal_strlit("solarized-dark");
                reveal_strlit("gruvbox-light");
                reveal_strlit("Solarized Dark");
                reveal_strlit("Gruvbox Light");
                assert(t[9].id@.len() != t[14].id@.len());
                assert(t[9].name@.len() != t[14].name@.len());
        } else if j == 15 {
                reveal_strlit("solarized-dark");
                reveal_strlit("paper");
                reveal_strlit("Solarized Dark");
                reveal_strlit("Paper");
                assert(t[9].id@.len() != t[15].id@.len());
                assert(t[9].name@.len() != t[15].name@.len());
        }
    } else if i == 10 {
        if j == 11 {
                reveal_strlit("wyck-light");
                reveal_strlit("github-light");
                reveal_strlit("Wyck Light");
                reveal_strlit("GitHub Light");
                assert(t[10].id@.len() != t[11].id@.len());
                assert(t[10].name@.len() != t[11].name@.len());
        } else if j == 12 {
                reveal_strlit("wyck-light");
                reveal_strlit("catppuccin-latte");
                reveal_strlit("Wyck Light");
                reveal_strlit("Catppuccin Latte");
                assert(t[10].id@.len() != t[12].id@.len());
                assert(t[10].name@.len() != t[12].name@.len());
        } else if j == 13 {
                reveal_strlit("wyck-light");
                reveal_strlit("solarized-light");
                reveal_strlit("Wyck Light");
                reveal_strlit("Solarized Light");
                assert(t[10].id@.len() != t[13].id@.len());
                assert(t[10].name@.len() != t[13].name@.len());
        } else if j == 14 {
                reveal_strlit("wyck-light");
                reveal_strlit("gruvbox-light");
                reveal_strlit("Wyck Light");
                reveal_strlit("Gruvbox Light");
                assert(t[10].id@.len() != t[14].id@.len());
                assert(t[10].name@.len() != t[14].name@.len());
        } else if j == 15 {
                reveal_strlit("wyck-light");
                reveal_strlit("paper");
                reveal_strlit("Wyck Light");
                reveal_strlit("Paper");
                assert(t[10].id@.len() != t[15].id@.len());
                assert(t[10].name@.len() != t[15].name@.len());
        }
    } else if i == 11 {
        if j == 12 {
                reveal_strlit("github-light");
                reveal_strlit("catppuccin-latte");
                reveal_strlit("GitHub Light");
                reveal_strlit("Catppuccin Latte");
                assert(t[11].id@.len() != t[12].id@.len());
                assert(t[11].name@.len() != t[12].name@.len());
        } else if j == 13 {
                reveal_strlit("github-light");
                reveal_strlit("solarized-light");
                reveal_strlit("GitHub Light");
                reveal_strlit("Solarized Light");
                assert(t[11].id@.len() != t[13].id@.len());
                assert(t[11].name@.len() != t[13].name@.len());
        } else if j == 14 {
                reveal_strlit("github-light");
                reveal_strlit("gruvbox-light");
                reveal_strlit("GitHub Light");
                reveal_strlit("Gruvbox Light");
                assert(t[11].id@.len() != t[14].id@.len());
                assert(t[11].name@.len() != t[14].name@.len());
        } else if j == 15 {
                reveal_strlit("github-light");
                reveal_strlit("paper");
                reveal_strlit("GitHub Light");
                reveal_strlit("Paper");
                assert(t[11].id@.len() != t[15].id@.len());
                assert(t[11].name@.len() != t[15].name@.len());
        }
    } else if i == 12 {
        if j == 13 {
                reveal_strlit("catppuccin-latte");
                reveal_strlit("solarized-light");
                reveal_strlit("Catppuccin Latte");
                reveal_strlit("Solarized Light");
                assert(t[12].id@.len() != t[13].id@.len());
                assert(t[12].name@.len() != t[13].name@.len());
        } else if j == 14 {
                reveal_strlit("catppuccin-latte");
                reveal_strlit("gruvbox-light");
                reveal_strlit("Catppuccin Latte");
                reveal_strlit("Gruvbox Light");
                assert(t[12].id@.len() != t[14].id@.len());
                assert(t[12].name@.len() != t[14].name@.len());
        } else if j == 15 {
                reveal_strlit("catppuccin-latte");
                reveal_strlit("paper");
                reveal_strlit("Catppuccin Latte");
                reveal_strlit("Paper");
                assert(t[12].id@.len() != t[15].id@.len());
                assert(t[12].name@.len() != t[15].name@.len());
        }
    } else if i == 13 {
        if j == 14 {
                reveal_strlit("solarized-light");
                reveal_strlit("gruvbox-light");
                reveal_strlit("Solarized Light");
                reveal_strlit("Gruvbox Light");
                assert(t[13].id@.len() != t[14].id@.len());
                assert(t[13].name@.len() != t[14].name@.len());
        } else if j == 15 {
                reveal_strlit("solarized-light");
                reveal_strlit("paper");
                reveal_strlit("Solarized Light");
                reveal_strlit("Paper");
                assert(t[13].id@.len() != t[15].id@.len());
                assert(t[13].name@.len() != t[15].name@.len());
        }
    } else if i == 14 {
        if j == 15 {
                reveal_strlit("gruvbox-light");
                reveal_strlit("paper");
                reveal_strlit("Gruvbox Light");
                reveal_strlit("Paper");
                assert(t[14].id@.len() != t[15].id@.len());
                assert(t[14].name@.len() != t[15].name@.len());
        }
    }
}

/// No two themes that come with the app share an id or a name.
pub proof fn law_every_preset_has_its_own_id_and_name()
    ensures
        forall|i: int, j: int|
            0 <= i < j < preset_table().len() ==> (#[trigger] preset_table()[i]).id@ != (#[trigger] preset_table()[j]).id@
                && preset_table()[i].name@ != preset_table()[j].name@,
{
    assert forall|i: int, j: int|
        0 <= i < j < preset_table().len() implies (#[trigger] preset_table()[i]).id@ != (#[trigger] preset_table()[j]).id@
            && preset_table()[i].name@ != preset_table()[j].name@ by {
        lemma_presets_differ(i, j);
    }
}

/// The themes come dark ones first: once one is light, every one after it is light too.
pub proof fn law_dark_themes_come_first()
    ensures
        forall|i: int, j: int|
            0 <= i < j < preset_table().len() && light_color((#[trigger] preset_table()[i]).colors.bg)
                ==> light_color((#[trigger] preset_table()[j]).colors.bg),
{
    assert forall|k: int| 0 <= k < preset_table().len() implies
        (light_color((#[trigger] preset_table()[k]).colors.bg) <==> k >= 10) by {
    }
}

/// In every theme a rising candle has a color of its own, apart from a falling one, and the
/// chart's background is the page's.
pub proof fn law_every_preset_tells_up_from_down()
    ensures
        forall|i: int| 0 <= i < preset_table().len() ==> (#[trigger] preset_table()[i]).colors.up != preset_table()[i].colors.down,
        forall|i: int| 0 <= i < preset_table().len() ==> (#[trigger] preset_table()[i]).colors.chart_bg == preset_table()[i].colors.bg,
{
}

/// Every ready-made candle set has two different colors.
pub proof fn law_the_candle_sets_have_two_colors()
    ensures
        forall|i: int| 0 <= i < candle_table().len() ==> (#[trigger] candle_table()[i]).1 != candle_table()[i].2,
{
}

} // verus!
