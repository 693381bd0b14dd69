use vstd::prelude::*;
use vstd::arithmetic::div_mod::lemma_fundamental_div_mod_converse;
use rand::Rng;
use crate::error::EmuError;

verus! {

/// Width of a sprite, in pixels, in the standard configuration.
pub const SPRITE_WIDTH: usize = 16;
/// Height of a sprite, in pixels, in the standard configuration.
pub const SPRITE_HEIGHT: usize = 16;
/// Width of the tile map, in sprites, in the standard configuration.
pub const MAP_WIDTH: usize = 10;
/// Height of the tile map, in sprites, in the standard configuration.
pub const MAP_HEIGHT: usize = 9;
/// Width of the visible window, in sprites, in the standard configuration.
pub const SCREEN_WIDTH: usize = 10;
/// Height of the visible window, in sprites, in the standard configuration.
pub const SCREEN_HEIGHT: usize = 9;

/// Bytes per pixel in a framebuffer.
pub const CHANNELS: usize = 4;

/// Relies on rand's `thread_rng().gen::<[u8; 4]>()`: four bytes from the
/// thread-local generator. Nothing is stated of their values.
#[verifier::external_body]
fn random_color() -> [u8; 4] {
    rand::thread_rng().gen()
}

/// A colour of four byte channels.
#[derive(Clone, Copy, Debug, PartialEq, Eq)]
pub struct Pixel {
    pub color: [u8; 4],
}

/// The colour every default pixel has: opaque cyan.
pub open spec fn default_color() -> Seq<u8> {
    seq![0u8, 255u8, 255u8, 255u8]
}

impl Pixel {
    /// An opaque cyan pixel.
    pub fn new() -> (r: Self)
        ensures
            r.color@ == default_color(),
    {
        let r = Self { color: [0, 0xFF, 0xFF, 0xFF] };
        assert(r.color@ =~= default_color());
        r
    }

    /// A pixel whose channels are drawn at random.
    pub fn new_random() -> (r: Self) {
        let mut pixel = Pixel::new();
        pixel.randomize();
        pixel
    }

    /// Draws every channel anew at random.
    pub fn randomize(&mut self) {
        self.color = random_color();
    }
}

/// A tile: rows of pixels.
#[derive(Clone, Debug)]
pub struct Sprite {
    pub pixels: Vec<Vec<Pixel>>,
}

impl Sprite {
    /// Holds `height` rows of `width` pixels each.
    pub open spec fn has_shape(&self, width: int, height: int) -> bool {
        &&& self.pixels@.len() == height
        &&& forall|j: int| 0 <= j < height ==> #[trigger] self.pixels@[j]@.len() == width
    }

    /// Whether the sprite holds `height` rows of `width` pixels each.
    pub fn is_shaped(&self, width: usize, height: usize) -> (r: bool)
        ensures
            r == self.has_shape(width as int, height as int),
    {
        if self.pixels.len() != height {
            return false;
        }
        let mut j: usize = 0;
        while j < self.pixels.len()
            invariant
                self.pixels@.len() == height,
                j <= height,
                forall|a: int| 0 <= a < j ==> #[trigger] self.pixels@[a]@.len() == width,
            decreases height - j,
        {
            if self.pixels[j].len() != width {
                return false;
            }
            j = j + 1;
        }
        true
    }

    /// A sprite of default pixels.
    pub fn new(width: usize, height: usize) -> (r: Self)
        ensures
            r.has_shape(width as int, height as int),
            forall|j: int, l: int|
                0 <= j < height && 0 <= l < width ==> (#[trigger] r.pixels@[j]@[l]).color@
                    == default_color(),
    {
        let mut pixels: Vec<Vec<Pixel>> = Vec::new();
        let mut j: usize = 0;
        while j < height
            invariant
                j <= height,
                pixels@.len() == j,
                forall|a: int| 0 <= a < j ==> #[trigger] pixels@[a]@.len() == width,
                forall|a: int, l: int|
                    0 <= a < j && 0 <= l < width ==> (#[trigger] pixels@[a]@[l]).color@
                        == default_color(),
            decreases height - j,
        {
            let mut row: Vec<Pixel> = Vec::new();
            let mut l: usize = 0;
            while l < width
                invariant
                    l <= width,
                    row@.len() == l,
                    forall|b: int| 0 <= b < l ==> (#[trigger] row@[b]).color@ == default_color(),
                decreases width - l,
            {
                row.push(Pixel::new());
                l = l + 1;
            }
            pixels.push(row);
            j = j + 1;
        }
        Self { pixels }
    }

    /// A sprite whose pixels are each drawn at random.
    pub fn new_random(width: usize, height: usize) -> (r: Self)
        ensures
            r.has_shape(width as int, height as int),
    {
        let mut pixels: Vec<Vec<Pixel>> = Vec::new();
        let mut j: usize = 0;
        while j < height
            invariant
                j <= height,
                pixels@.len() == j,
                forall|a: int| 0 <= a < j ==> #[trigger] pixels@[a]@.len() == width,
            decreases height - j,
        {
            let mut row: Vec<Pixel> = Vec::new();
            let mut l: usize = 0;
            while l < width
                invariant
                    l <= width,
                    row@.len() == l,
                decreases width - l,
            {
                row.push(Pixel::new_random());
                l = l + 1;
            }
            pixels.push(row);
            j = j + 1;
        }
        Self { pixels }
    }
}

/// The dimensions of sprites, of the tile map and of its visible window.
#[derive(Clone, Copy, Debug, PartialEq, Eq)]
pub struct Config {
    pub sprite_width: usize,
    pub sprite_height: usize,
    pub map_width: usize,
    pub map_height: usize,
    pub screen_width: usize,
    pub screen_height: usize,
}

impl Config {
    /// Pixels in one row of the visible window.
    pub open spec fn row_pixels(self) -> int {
        self.screen_width * self.sprite_width
    }

    /// Pixels in the visible window.
    pub open spec fn pixel_count(self) -> int {
        self.screen_height * self.sprite_height * self.row_pixels()
    }

    /// Every dimension positive, the window inside the map, and the
    /// window's bytes countable in a `usize`.
    pub open spec fn wf(self) -> bool {
        &&& self.sprite_width > 0
        &&& self.sprite_height > 0
        &&& self.screen_width > 0
        &&& self.screen_height > 0
        &&& self.screen_width <= self.map_width
        &&& self.screen_height <= self.map_height
        &&& self.pixel_count() * CHANNELS <= usize::MAX
    }

    /// The dimensions given by the standard constants.
    pub open spec fn is_standard(self) -> bool {
        &&& self.sprite_width == SPRITE_WIDTH
        &&& self.sprite_height == SPRITE_HEIGHT
        &&& self.map_width == MAP_WIDTH
        &&& self.map_height == MAP_HEIGHT
        &&& self.screen_width == SCREEN_WIDTH
        &&& self.screen_height == SCREEN_HEIGHT
    }

    /// Sixteen-pixel sprites on a ten by nine map, all of it visible.
    pub fn standard() -> (r: Self)
        ensures
            r.wf(),
            r.is_standard(),
    {
        let r = Self {
            sprite_width: SPRITE_WIDTH,
            sprite_height: SPRITE_HEIGHT,
            map_width: MAP_WIDTH,
            map_height: MAP_HEIGHT,
            screen_width: SCREEN_WIDTH,
            screen_height: SCREEN_HEIGHT,
        };
        assert(r.pixel_count() == 23040) by (nonlinear_arith)
            requires
                r.screen_height == 9,
                r.sprite_height == 16,
                r.screen_width == 10,
                r.sprite_width == 16,
                r.pixel_count() == r.screen_height * r.sprite_height * (r.screen_width
                    * r.sprite_width),
        ;
        r
    }

    /// Whether the configuration is well formed.
    pub fn is_valid(&self) -> (r: bool)
        ensures
            r == self.wf(),
    {
        if self.sprite_width == 0 || self.sprite_height == 0 || self.screen_width == 0
            || self.screen_height == 0 || self.screen_width > self.map_width || self.screen_height
            > self.map_height {
            return false;
        }
        let ghost (a, b, c, d) = (
            self.screen_height as int,
            self.sprite_height as int,
            self.screen_width as int,
            self.sprite_width as int,
        );
        assert(self.pixel_count() == a * b * (c * d));
        assert(a * b * (c * d) * 4 == ((a * b) * c) * d * 4) by (nonlinear_arith);
        assert(a * b <= a * b * c && a * b * c <= a * b * c * d && a * b * c * d <= a * b * c * d
            * 4) by (nonlinear_arith)
            requires
                a > 0,
                b > 0,
                c > 0,
                d > 0,
        ;
        match self.screen_height.checked_mul(self.sprite_height) {
            None => false,
            Some(p1) => match p1.checked_mul(self.screen_width) {
                None => false,
                Some(p2) => match p2.checked_mul(self.sprite_width) {
                    None => false,
                    Some(p3) => p3.checked_mul(CHANNELS).is_some(),
                },
            },
        }
    }
}

/// The pixel at raster position `idx` of the visible window: its row and
/// column pick a tile and a pixel within it.
pub open spec fn flat_pixel(g: GameBoy, idx: int) -> Pixel {
    let c = g.config;
    let row = idx / c.row_pixels();
    let col = idx % c.row_pixels();
    g.map@[row / c.sprite_height as int]@[col / c.sprite_width as int].pixels@[row
        % c.sprite_height as int]@[col % c.sprite_width as int]
}

/// The map has the configured number of rows and columns, and every sprite
/// the configured shape.
pub open spec fn map_fits(c: Config, map: Seq<Vec<Sprite>>) -> bool {
    &&& map.len() == c.map_height
    &&& forall|i: int| 0 <= i < c.map_height ==> #[trigger] map[i]@.len() == c.map_width
    &&& forall|i: int, k: int|
        0 <= i < c.map_height && 0 <= k < c.map_width ==> (#[trigger] map[i]@[k]).has_shape(
            c.sprite_width as int,
            c.sprite_height as int,
        )
}

/// The compositor: a map of sprite tiles, of which a window is shown.
pub struct GameBoy {
    pub config: Config,
    pub map: Vec<Vec<Sprite>>,
}

impl GameBoy {
    /// The configuration is well formed and the map fits it.
    pub open spec fn wf(&self) -> bool {
        self.config.wf() && map_fits(self.config, self.map@)
    }

    /// A map of the standard configuration, every sprite drawn at random.
    pub fn new() -> (r: Self)
        ensures
            r.wf(),
            r.config.is_standard(),
    {
        Self::with_config(Config::standard())
    }

    /// A map of the given configuration, every sprite drawn at random.
    pub fn with_config(config: Config) -> (r: Self)
        requires
            config.wf(),
        ensures
            r.wf(),
            r.config == config,
    {
        let mut map: Vec<Vec<Sprite>> = Vec::new();
        let mut i: usize = 0;
        while i < config.map_height
            invariant
                i <= config.map_height,
                map@.len() == i,
                forall|a: int| 0 <= a < i ==> #[trigger] map@[a]@.len() == config.map_width,
                forall|a: int, k: int|
                    0 <= a < i && 0 <= k < config.map_width ==> (#[trigger] map@[a]@[k]).has_shape(
                        config.sprite_width as int,
                        config.sprite_height as int,
                    ),
            decreases config.map_height - i,
        {
            let mut row: Vec<Sprite> = Vec::new();
            let mut k: usize = 0;
            while k < config.map_width
                invariant
                    k <= config.map_width,
                    row@.len() == k,
                    forall|b: int|
                        0 <= b < k ==> (#[trigger] row@[b]).has_shape(
                            config.sprite_width as int,
                            config.sprite_height as int,
                        ),
                decreases config.map_width - k,
            {
                row.push(Sprite::new_random(config.sprite_width, config.sprite_height));
                k = k + 1;
            }
            map.push(row);
            i = i + 1;
        }
        Self { config, map }
    }

    /// A compositor over the given tiles, or `None` unless the configuration
    /// is well formed and the map fits it.
    pub fn from_map(config: Config, map: Vec<Vec<Sprite>>) -> (r: Option<Self>)
        ensures
            r is Some <==> config.wf() && map_fits(config, map@),
            r matches Some(g) ==> g.config == config && g.map@ == map@,
    {
        if !config.is_valid() || map.len() != config.map_height {
            return None;
        }
        let mut i: usize = 0;
        while i < map.len()
            invariant
                map@.len() == config.map_height,
                i <= map@.len(),
                forall|a: int| 0 <= a < i ==> #[trigger] map@[a]@.len() == config.map_width,
                forall|a: int, k: int|
                    0 <= a < i && 0 <= k < config.map_width ==> (#[trigger] map@[a]@[k]).has_shape(
                        config.sprite_width as int,
                        config.sprite_height as int,
                    ),
            decreases map@.len() - i,
        {
            if map[i].len() != config.map_width {
                return None;
            }
            let mut k: usize = 0;
            while k < map[i].len()
                invariant
                    i < map@.len(),
                    map@[i as int]@.len() == config.map_width,
                    k <= config.map_width,
                    forall|b: int|
                        0 <= b < k ==> (#[trigger] map@[i as int]@[b]).has_shape(
                            config.sprite_width as int,
                            config.sprite_height as int,
                        ),
                decreases config.map_width - k,
            {
                if !map[i][k].is_shaped(config.sprite_width, config.sprite_height) {
                    return None;
                }
                k = k + 1;
            }
            i = i + 1;
        }
        Some(Self { config, map })
    }

    /// The flattened window: `pixel_count` pixels in raster order.
    pub fn get_flat_map(&self) -> (r: Vec<Pixel>)
        requires
            self.wf(),
        ensures
            r@.len() == self.config.pixel_count(),
            forall|idx: int|
                0 <= idx < self.config.pixel_count() ==> #[trigger] r@[idx] == flat_pixel(
                    *self,
                    idx,
                ),
    {
        let c = self.config;
        let ghost w = c.row_pixels();
        let ghost (sph, spw) = (c.sprite_height as int, c.sprite_width as int);
        let mut screen: Vec<Pixel> = Vec::new();
        let mut i: usize = 0;
        assert(0 * sph * w == 0) by (nonlinear_arith);
        while i < c.screen_height
            invariant
                self.wf(),
                c == self.config,
                w == c.row_pixels(),
                sph == c.sprite_height,
                spw == c.sprite_width,
                i <= c.screen_height,
                screen@.len() == i * sph * w,
                forall|t: int| 0 <= t < screen@.len() ==> #[trigger] screen@[t] == flat_pixel(*self, t),
            decreases c.screen_height - i,
        {
            let mut j: usize = 0;
            while j < c.sprite_height
                invariant
                    self.wf(),
                    c == self.config,
                    w == c.row_pixels(),
                    sph == c.sprite_height,
                    spw == c.sprite_width,
                    i < c.screen_height,
                    j <= c.sprite_height,
                    screen@.len() == (i * sph + j) * w,
                    forall|t: int|
                        0 <= t < screen@.len() ==> #[trigger] screen@[t] == flat_pixel(*self, t),
                decreases c.sprite_height - j,
            {
                let mut k: usize = 0;
                while k < c.screen_width
                    invariant
                        self.wf(),
                        c == self.config,
                        w == c.row_pixels(),
                        sph == c.sprite_height,
                        spw == c.sprite_width,
                        i < c.screen_height,
                        j < c.sprite_height,
                        k <= c.screen_width,
                        screen@.len() == (i * sph + j) * w + k * spw,
                        forall|t: int|
                            0 <= t < screen@.len() ==> #[trigger] screen@[t] == flat_pixel(
                                *self,
                                t,
                            ),
                    decreases c.screen_width - k,
                {
                    let mut l: usize = 0;
                    while l < c.sprite_width
                        invariant
                            self.wf(),
                            c == self.config,
                            w == c.row_pixels(),
                            sph == c.sprite_height,
                            spw == c.sprite_width,
                            i < c.screen_height,
                            j < c.sprite_height,
                            k < c.screen_width,
                            l <= c.sprite_width,
                            screen@.len() == (i * sph + j) * w + k * spw + l,
                            forall|t: int|
                                0 <= t < screen@.len() ==> #[trigger] screen@[t] == flat_pixel(
                                    *self,
                                    t,
                                ),
                        decreases c.sprite_width - l,
                    {
                        proof {
                            lemma_flat_index(*self, i as int, j as int, k as int, l as int);
                        }
                        assert(self.map@[i as int]@[k as int].has_shape(spw, sph));
                        screen.push(self.map[i][k].pixels[j][l]);
                        l = l + 1;
                    }
                    assert((i * sph + j) * w + k * spw + spw == (i * sph + j) * w + (k + 1) * spw)
                        by (nonlinear_arith);
                    k = k + 1;
                }
                assert((i * sph + j) * w + c.screen_width * spw == (i * sph + (j + 1)) * w)
                    by (nonlinear_arith)
                    requires
                        w == c.screen_width * spw,
                ;
                j = j + 1;
            }
            assert((i * sph + sph) * w == (i + 1) * sph * w) by (nonlinear_arith);
            i = i + 1;
        }
        assert(c.pixel_count() == c.screen_height * sph * w);
        screen
    }

    /// Copies the flattened window into `screen`, four channel bytes per
    /// pixel in raster order. Fails with `BufferSizeMismatch`, leaving
    /// `screen` as it was, unless it holds exactly that many bytes.
    pub fn draw(&self, screen: &mut [u8]) -> (r: Result<(), EmuError>)
        requires
            self.wf(),
        ensures
            old(screen)@.len() != self.config.pixel_count() * CHANNELS ==> r == Err::<(), EmuError>(
                EmuError::BufferSizeMismatch,
            ) && final(screen)@ == old(screen)@,
            old(screen)@.len() == self.config.pixel_count() * CHANNELS ==> r == Ok::<(), EmuError>(
                (),
            ) && final(screen)@.len() == old(screen)@.len() && forall|b: int|
                0 <= b < final(screen)@.len() ==> #[trigger] final(screen)@[b] == flat_pixel(
                    *self,
                    b / 4,
                ).color@[b % 4],
    {
        let flat_map = self.get_flat_map();
        if screen.len() != flat_map.len() * CHANNELS {
            return Err(EmuError::BufferSizeMismatch);
        }
        let mut b: usize = 0;
        while b < screen.len()
            invariant
                self.wf(),
                flat_map@.len() == self.config.pixel_count(),
                forall|idx: int|
                    0 <= idx < self.config.pixel_count() ==> #[trigger] flat_map@[idx] == flat_pixel(
                        *self,
                        idx,
                    ),
                screen@.len() == old(screen)@.len(),
                screen@.len() == flat_map@.len() * 4,
                b <= screen@.len(),
                forall|a: int| 0 <= a < b ==> #[trigger] screen@[a] == flat_pixel(*self, a / 4).color@[a % 4],
            decreases screen@.len() - b,
        {
            screen[b] = flat_map[b / 4].color[b % 4];
            b = b + 1;
        }
        Ok(())
    }
}

/// Pixel `(j, l)` of tile `(i, k)` lands at
/// `i*SPRITE_HEIGHT*SCREEN_WIDTH*SPRITE_WIDTH + j*SCREEN_WIDTH*SPRITE_WIDTH + k*SPRITE_WIDTH + l`
/// of the flattened window.
pub proof fn lemma_flat_index(g: GameBoy, i: int, j: int, k: int, l: int)
    requires
        g.config.wf(),
        0 <= i < g.config.screen_height,
        0 <= j < g.config.sprite_height,
        0 <= k < g.config.screen_width,
        0 <= l < g.config.sprite_width,
    ensures
        i * g.config.sprite_height * g.config.screen_width * g.config.sprite_width + j
            * g.config.screen_width * g.config.sprite_width + k * g.config.sprite_width + l == (i
            * g.config.sprite_height + j) * g.config.row_pixels() + k * g.config.sprite_width + l,
        flat_pixel(g, (i * g.config.sprite_height + j) * g.config.row_pixels() + k
            * g.config.sprite_width + l) == g.map@[i]@[k].pixels@[j]@[l],
{
    let c = g.config;
    let (sph, spw, sw) = (c.sprite_height as int, c.sprite_width as int, c.screen_width as int);
    let w = c.row_pixels();
    let row = i * sph + j;
    let col = k * spw + l;
    assert(i * sph * sw * spw + j * sw * spw + k * spw + l == row * w + k * spw + l)
        by (nonlinear_arith)
        requires
            w == sw * spw,
            row == i * sph + j,
    ;
    assert(col < w) by (nonlinear_arith)
        requires
            w == sw * spw,
            col == k * spw + l,
            0 <= k < sw,
            0 <= l < spw,
    ;
    assert(0 <= col) by (nonlinear_arith)
        requires
            col == k * spw + l,
            0 <= k,
            0 <= l,
            spw > 0,
    ;
    lemma_fundamental_div_mod_converse(row * w + col, w, row, col);
    lemma_fundamental_div_mod_converse(row, sph, i, j);
    lemma_fundamental_div_mod_converse(col, spw, k, l);
}

/// Flattening depends on the map alone: two flattenings of one map agree.
pub proof fn lemma_flatten_deterministic(g: GameBoy, first: Seq<Pixel>, second: Seq<Pixel>)
    requires
        g.wf(),
        first.len() == g.config.pixel_count(),
        second.len() == g.config.pixel_count(),
        forall|idx: int| 0 <= idx < g.config.pixel_count() ==> #[trigger] first[idx] == flat_pixel(g, idx),
        forall|idx: int| 0 <= idx < g.config.pixel_count() ==> #[trigger] second[idx] == flat_pixel(g, idx),
    ensures
        first == second,
        first.len() == g.config.screen_height * g.config.sprite_height * g.config.screen_width
            * g.config.sprite_width,
{
    assert(first =~= second);
    let c = g.config;
    assert(c.pixel_count() == c.screen_height * c.sprite_height * c.screen_width * c.sprite_width)
        by (nonlinear_arith)
        requires
            c.pixel_count() == c.screen_height * c.sprite_height * (c.screen_width * c.sprite_width),
    ;
}

} // verus!
