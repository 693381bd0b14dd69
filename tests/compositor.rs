use gameboy_emu::{Config, EmuError, GameBoy, Pixel, Sprite};

fn tiny_config(sprite: usize, screen: usize) -> Config {
    Config {
        sprite_width: sprite,
        sprite_height: sprite,
        map_width: screen,
        map_height: screen,
        screen_width: screen,
        screen_height: screen,
    }
}

fn px(v: u8) -> Pixel {
    Pixel { color: [v, v + 1, v + 2, v + 3] }
}

#[test]
fn standard_map_flattens_to_full_window() {
    let g = GameBoy::new();
    let first = g.get_flat_map();
    assert_eq!(first.len(), 9 * 16 * 10 * 16);
    let second = g.get_flat_map();
    assert_eq!(first, second);
}

#[test]
fn single_sprite_flattens_in_row_order() {
    let (a, b, c, d) = (px(10), px(20), px(30), px(40));
    let sprite = Sprite { pixels: vec![vec![a, b], vec![c, d]] };
    let g = GameBoy::from_map(tiny_config(2, 1), vec![vec![sprite]]).unwrap();
    assert_eq!(g.get_flat_map(), vec![a, b, c, d]);
    let mut screen = [0u8; 16];
    assert_eq!(g.draw(&mut screen), Ok(()));
    assert_eq!(
        screen,
        [10, 11, 12, 13, 20, 21, 22, 23, 30, 31, 32, 33, 40, 41, 42, 43]
    );
}

#[test]
fn tiles_interleave_by_screen_row() {
    // four 2x2 tiles; tile (i, k) pixel (j, l) has value 16*(2i+k) + 4*(2j+l)
    let mut map = Vec::new();
    for i in 0..2u8 {
        let mut row = Vec::new();
        for k in 0..2u8 {
            let mut pixels = Vec::new();
            for j in 0..2u8 {
                let mut line = Vec::new();
                for l in 0..2u8 {
                    line.push(px(16 * (2 * i + k) + 4 * (2 * j + l)));
                }
                pixels.push(line);
            }
            row.push(Sprite { pixels });
        }
        map.push(row);
    }
    let g = GameBoy::from_map(tiny_config(2, 2), map).unwrap();
    let flat = g.get_flat_map();
    assert_eq!(flat.len(), 16);
    let firsts: Vec<u8> = flat.iter().map(|p| p.color[0]).collect();
    assert_eq!(
        firsts,
        vec![0, 4, 16, 20, 8, 12, 24, 28, 32, 36, 48, 52, 40, 44, 56, 60]
    );
    // tile (1, 0), pixel (0, 1) sits at 1*2*2*2 + 0 + 0*2 + 1
    assert_eq!(flat[9], px(36));
}

#[test]
fn only_the_window_is_flattened() {
    let mut config = tiny_config(1, 1);
    config.map_width = 2;
    config.map_height = 2;
    let map = vec![
        vec![Sprite { pixels: vec![vec![px(1)]] }, Sprite { pixels: vec![vec![px(2)]] }],
        vec![Sprite { pixels: vec![vec![px(3)]] }, Sprite { pixels: vec![vec![px(4)]] }],
    ];
    let g = GameBoy::from_map(config, map).unwrap();
    assert_eq!(g.get_flat_map(), vec![px(1)]);
}

#[test]
fn draw_rejects_wrong_buffer_size() {
    let sprite = Sprite::new(2, 2);
    let g = GameBoy::from_map(tiny_config(2, 1), vec![vec![sprite]]).unwrap();
    let mut short = [7u8; 12];
    assert_eq!(g.draw(&mut short), Err(EmuError::BufferSizeMismatch));
    assert_eq!(short, [7u8; 12]);
    let mut long = [7u8; 20];
    assert_eq!(g.draw(&mut long), Err(EmuError::BufferSizeMismatch));
    assert_eq!(long, [7u8; 20]);
}

#[test]
fn draw_fills_standard_frame() {
    let g = GameBoy::new();
    let mut frame = vec![0u8; 160 * 144 * 4];
    assert_eq!(g.draw(&mut frame), Ok(()));
    let flat = g.get_flat_map();
    assert_eq!(&frame[4..8], &flat[1].color[..]);
    assert_eq!(&frame[frame.len() - 4..], &flat[flat.len() - 1].color[..]);
}

#[test]
fn default_pixel_is_opaque_cyan() {
    assert_eq!(Pixel::new().color, [0, 255, 255, 255]);
    let s = Sprite::new(3, 2);
    assert_eq!(s.pixels.len(), 2);
    assert!(s.pixels.iter().all(|row| row.len() == 3));
    assert!(s.pixels.iter().flatten().all(|p| p.color == [0, 255, 255, 255]));
}

#[test]
fn random_sprite_has_requested_shape() {
    let s = Sprite::new_random(4, 5);
    assert!(s.is_shaped(4, 5));
    assert!(!s.is_shaped(5, 4));
    let g = GameBoy::new();
    assert_eq!(g.map.len(), 9);
    assert!(g.map.iter().all(|row| row.len() == 10));
    assert!(g.map.iter().flatten().all(|s| s.is_shaped(16, 16)));
}

#[test]
fn from_map_rejects_misshapen_input() {
    let good = Sprite::new(2, 2);
    let bad = Sprite::new(2, 3);
    assert!(GameBoy::from_map(tiny_config(2, 1), vec![vec![bad]]).is_none());
    assert!(GameBoy::from_map(tiny_config(2, 1), vec![]).is_none());
    assert!(GameBoy::from_map(tiny_config(2, 1), vec![vec![good.clone(), good.clone()]]).is_none());
    let mut zero = tiny_config(2, 1);
    zero.sprite_width = 0;
    assert!(GameBoy::from_map(zero, vec![vec![good]]).is_none());
}

#[test]
fn config_validity() {
    assert!(Config::standard().is_valid());
    let mut c = Config::standard();
    c.screen_width = 11;
    assert!(!c.is_valid());
    let mut c = Config::standard();
    c.screen_height = 0;
    assert!(!c.is_valid());
    let mut c = Config::standard();
    c.sprite_width = usize::MAX;
    assert!(!c.is_valid());
}
