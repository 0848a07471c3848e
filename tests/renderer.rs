use raytracer::{ConfigError, RenderConfig, RenderStep, Renderer, Rgb};

fn config(width: u32, aspect_width: u32, aspect_height: u32) -> RenderConfig {
    RenderConfig {
        image_width: width,
        aspect_width,
        aspect_height,
        samples_per_pixel: 1,
        max_depth: 1,
    }
}

/// Drives a renderer to the end, coloring pixel (col, row) by `color`, and
/// returns the text it handed out and the steps it took.
fn run(r: &mut Renderer, color: impl Fn(u32, u32) -> Rgb) -> (String, Vec<RenderStep>) {
    let mut text: Vec<u8> = Vec::new();
    let mut steps: Vec<RenderStep> = Vec::new();
    loop {
        let step = r.next_step();
        steps.push(step);
        match step {
            RenderStep::Finished => break,
            RenderStep::Pixel { col, row } => text.extend(r.put_pixel(color(col, row))),
            _ => text.extend(r.advance()),
        }
    }
    (String::from_utf8(text).unwrap(), steps)
}

#[test]
fn default_config() {
    let c = RenderConfig::default();
    assert_eq!(c, config_with(720, 16, 9, 10, 10));
}

fn config_with(w: u32, aw: u32, ah: u32, spp: u32, depth: u32) -> RenderConfig {
    RenderConfig {
        image_width: w,
        aspect_width: aw,
        aspect_height: ah,
        samples_per_pixel: spp,
        max_depth: depth,
    }
}

#[test]
fn height_from_aspect_ratio() {
    let mut r = Renderer::new(RenderConfig::default());
    assert_eq!(r.initialize(), Ok(()));
    assert_eq!(r.image_height(), 405);

    let mut r = Renderer::new(config(2, 2, 1));
    assert_eq!(r.initialize(), Ok(()));
    assert_eq!(r.image_height(), 1);

    let mut r = Renderer::new(config(100, 3, 4));
    assert_eq!(r.initialize(), Ok(()));
    assert_eq!(r.image_height(), 133);
}

#[test]
fn height_is_at_least_one_row() {
    let mut r = Renderer::new(config(1, 16, 9));
    assert_eq!(r.initialize(), Ok(()));
    assert_eq!(r.image_height(), 1);

    let mut r = Renderer::new(config(5, 1, 0));
    assert_eq!(r.initialize(), Ok(()));
    assert_eq!(r.image_height(), 1);
}

#[test]
fn zero_aspect_width_is_refused() {
    let mut r = Renderer::new(config(10, 0, 9));
    assert_eq!(r.initialize(), Err(ConfigError::ZeroAspectWidth));
    assert_eq!(r.config(), config(10, 0, 9));
}

#[test]
fn height_beyond_32_bits_is_refused() {
    let mut r = Renderer::new(config(u32::MAX, 1, 2));
    assert_eq!(r.initialize(), Err(ConfigError::HeightTooLarge));

    let mut r = Renderer::new(config(u32::MAX, 1, 1));
    assert_eq!(r.initialize(), Ok(()));
    assert_eq!(r.image_height(), u32::MAX);
}

#[test]
fn initialize_twice_gives_the_same_renderer() {
    let mut r = Renderer::new(config(7, 16, 9));
    assert_eq!(r.initialize(), Ok(()));
    let first = r.image_height();
    assert_eq!(r.initialize(), Ok(()));
    assert_eq!(r.image_height(), first);
    assert_eq!(r.next_step(), RenderStep::Header);
    assert_eq!(r.config(), config(7, 16, 9));
}

#[test]
fn initialize_restarts_an_image() {
    let mut r = Renderer::new(config(2, 2, 1));
    assert_eq!(r.initialize(), Ok(()));
    r.advance();
    r.advance();
    assert_eq!(r.next_step(), RenderStep::Pixel { col: 0, row: 0 });
    assert_eq!(r.initialize(), Ok(()));
    assert_eq!(r.next_step(), RenderStep::Header);
}

#[test]
fn new_config_needs_initialization() {
    let mut r = Renderer::new(config(2, 2, 1));
    assert_eq!(r.initialize(), Ok(()));
    r.set_config(config(4, 2, 1));
    assert_eq!(r.config(), config(4, 2, 1));
    assert_eq!(r.initialize(), Ok(()));
    assert_eq!(r.image_height(), 2);
}

#[test]
fn two_by_one_schedule_and_text() {
    let mut r = Renderer::new(config(2, 2, 1));
    assert_eq!(r.initialize(), Ok(()));
    let (text, steps) = run(&mut r, |col, _row| Rgb { r: 10 * col as u8, g: 255, b: 0 });
    assert_eq!(
        steps,
        vec![
            RenderStep::Header,
            RenderStep::BeginRow { row: 0 },
            RenderStep::Pixel { col: 0, row: 0 },
            RenderStep::Pixel { col: 1, row: 0 },
            RenderStep::EndRow { row: 0 },
            RenderStep::Finished,
        ]
    );
    assert_eq!(text, "P3\n2 1\n255\n0 255 0\n10 255 0\n");
}

#[test]
fn rows_come_top_down_and_pixels_left_to_right() {
    let mut r = Renderer::new(config(3, 3, 2));
    assert_eq!(r.initialize(), Ok(()));
    let (_, steps) = run(&mut r, |_, _| Rgb { r: 0, g: 0, b: 0 });
    let pixels: Vec<(u32, u32)> = steps
        .iter()
        .filter_map(|s| match s {
            RenderStep::Pixel { col, row } => Some((*col, *row)),
            _ => None,
        })
        .collect();
    assert_eq!(pixels, vec![(0, 0), (1, 0), (2, 0), (0, 1), (1, 1), (2, 1)]);
    assert_eq!(steps.len(), 1 + 2 * (3 + 2) + 1);
}

#[test]
fn output_has_header_and_one_line_per_pixel() {
    for (w, aw, ah) in [(3u32, 3u32, 2u32), (5, 1, 1), (1, 1, 4), (4, 16, 9)] {
        let mut r = Renderer::new(config(w, aw, ah));
        assert_eq!(r.initialize(), Ok(()));
        let h = r.image_height();
        let (text, _) = run(&mut r, |col, row| Rgb { r: col as u8, g: row as u8, b: 255 });
        let lines: Vec<&str> = text.lines().collect();
        assert_eq!(lines.len() as u32, 3 + w * h);
        assert_eq!(lines[0], "P3");
        assert_eq!(lines[1], format!("{} {}", w, h));
        assert_eq!(lines[2], "255");
        for line in &lines[3..] {
            let parts: Vec<u32> = line.split(' ').map(|p| p.parse().unwrap()).collect();
            assert_eq!(parts.len(), 3);
            assert!(parts.iter().all(|v| *v <= 255));
        }
        assert!(text.ends_with('\n'));
    }
}

#[test]
fn zero_width_image_has_only_rows() {
    let mut r = Renderer::new(config(0, 1, 1));
    assert_eq!(r.initialize(), Ok(()));
    assert_eq!(r.image_height(), 1);
    let (text, steps) = run(&mut r, |_, _| Rgb { r: 0, g: 0, b: 0 });
    assert_eq!(text, "P3\n0 1\n255\n");
    assert_eq!(
        steps,
        vec![
            RenderStep::Header,
            RenderStep::BeginRow { row: 0 },
            RenderStep::EndRow { row: 0 },
            RenderStep::Finished,
        ]
    );
}
