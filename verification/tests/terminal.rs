use ascii_art::brightness::BrightnessMethod;
use ascii_art::terminal::{
    annotate_text, can_print, print_image, render_plan, Action, Attribute, Color, Directive,
    Outcome, RenderError, Renderer, STRETCH,
};

fn green(level: u8) -> Directive {
    Directive::SetAttribute(Attribute {
        foreground: Color::Rgb { r: 0, g: level, b: 0 },
        background: Color::Black,
    })
}

/// Renders a plan against a terminal that refuses the writes with the
/// given numbers, counted from zero over everything sent.
fn run(plan: Vec<Directive>, refused: &[usize]) -> (Vec<Directive>, Result<(), RenderError>) {
    let mut renderer = Renderer::new(plan);
    let mut sent: Vec<Directive> = Vec::new();
    loop {
        match renderer.next_action() {
            Action::Emit(directive) => {
                let outcome =
                    if refused.contains(&sent.len()) { Outcome::Failed } else { Outcome::Written };
                sent.push(directive);
                renderer.record(outcome);
            }
            Action::Finish(result) => return (sent, result),
        }
        assert!(sent.len() < 10_000);
    }
}

#[test]
fn green_attribute_carries_the_brightness_in_its_green_channel() {
    assert_eq!(
        annotate_text(137),
        Attribute { foreground: Color::Rgb { r: 0, g: 137, b: 0 }, background: Color::Black }
    );
    assert_eq!(
        annotate_text(0),
        Attribute { foreground: Color::Rgb { r: 0, g: 0, b: 0 }, background: Color::Black }
    );
    assert_eq!(
        annotate_text(255),
        Attribute { foreground: Color::Rgb { r: 0, g: 255, b: 0 }, background: Color::Black }
    );
}

#[test]
fn plain_plan_prints_each_glyph_three_times() {
    assert_eq!(STRETCH, 3);
    let glyphs: Vec<Vec<char>> = vec![vec!['a', 'b']];
    let levels: Vec<Vec<u8>> = vec![vec![1, 2]];
    assert_eq!(
        print_image(&glyphs, &levels, false),
        vec![
            Directive::Print('a'),
            Directive::Print('a'),
            Directive::Print('a'),
            Directive::Print('b'),
            Directive::Print('b'),
            Directive::Print('b'),
            Directive::LineBreak,
            Directive::ResetColor,
            Directive::Flush,
        ]
    );
}

#[test]
fn green_plan_sets_the_colour_before_each_cell() {
    let glyphs: Vec<Vec<char>> = vec![vec!['a'], vec!['b']];
    let levels: Vec<Vec<u8>> = vec![vec![10], vec![250]];
    assert_eq!(
        print_image(&glyphs, &levels, true),
        vec![
            green(10),
            Directive::Print('a'),
            Directive::Print('a'),
            Directive::Print('a'),
            Directive::LineBreak,
            green(250),
            Directive::Print('b'),
            Directive::Print('b'),
            Directive::Print('b'),
            Directive::LineBreak,
            Directive::ResetColor,
            Directive::Flush,
        ]
    );
}

#[test]
fn empty_frame_is_reset_and_flushed() {
    let glyphs: Vec<Vec<char>> = Vec::new();
    let levels: Vec<Vec<u8>> = Vec::new();
    assert_eq!(
        print_image(&glyphs, &levels, true),
        vec![Directive::ResetColor, Directive::Flush]
    );
}

#[test]
fn rows_without_cells_are_line_breaks() {
    let glyphs: Vec<Vec<char>> = vec![Vec::new(), Vec::new()];
    let levels: Vec<Vec<u8>> = vec![Vec::new(), Vec::new()];
    assert_eq!(
        print_image(&glyphs, &levels, false),
        vec![Directive::LineBreak, Directive::LineBreak, Directive::ResetColor, Directive::Flush]
    );
}

#[test]
fn two_by_two_frame_renders_two_rows_of_six_glyphs() {
    let pixels: Vec<Vec<[u8; 3]>> = vec![vec![[90, 120, 30]; 2]; 2];
    let plan = render_plan(&pixels, &BrightnessMethod::Average, false, false);
    let mut rows: Vec<Vec<char>> = vec![Vec::new()];
    for directive in plan.iter() {
        match directive {
            Directive::Print(glyph) => rows.last_mut().unwrap().push(*glyph),
            Directive::LineBreak => rows.push(Vec::new()),
            _ => {}
        }
    }
    assert_eq!(rows, vec![vec!['1'; 6], vec!['1'; 6], Vec::new()]);
    assert_eq!(plan.len(), 2 * (2 * 3 + 1) + 2);
}

#[test]
fn green_rendering_of_a_frame_uses_its_brightness() {
    let pixels: Vec<Vec<[u8; 3]>> = vec![vec![[255, 255, 255]], vec![[0, 0, 0]]];
    let plan = render_plan(&pixels, &BrightnessMethod::Luminosity, true, true);
    assert_eq!(
        plan,
        vec![
            green(255),
            Directive::Print('`'),
            Directive::Print('`'),
            Directive::Print('`'),
            Directive::LineBreak,
            green(0),
            Directive::Print('@'),
            Directive::Print('@'),
            Directive::Print('@'),
            Directive::LineBreak,
            Directive::ResetColor,
            Directive::Flush,
        ]
    );
}

#[test]
fn plain_rendering_needs_a_brightness_row_for_each_glyph_row_only() {
    let glyphs: Vec<Vec<char>> = vec![vec!['a', 'b'], vec!['c']];
    assert!(can_print(&glyphs, &vec![Vec::new(), Vec::new()], false));
    assert!(can_print(&glyphs, &vec![Vec::new(), Vec::new(), vec![1]], false));
    assert!(!can_print(&glyphs, &vec![vec![1, 2]], false));
    assert!(!can_print(&glyphs, &Vec::new(), false));
    assert_eq!(
        print_image(&glyphs, &vec![Vec::new(), Vec::new()], false).len(),
        3 * 3 + 2 + 2
    );
}

#[test]
fn green_rendering_needs_a_brightness_for_each_glyph() {
    let glyphs: Vec<Vec<char>> = vec![vec!['a', 'b'], vec!['c']];
    assert!(can_print(&glyphs, &vec![vec![1, 2], vec![3]], true));
    assert!(can_print(&glyphs, &vec![vec![1, 2, 9], vec![3, 9], vec![9]], true));
    assert!(!can_print(&glyphs, &vec![vec![1, 2], Vec::new()], true));
    assert!(!can_print(&glyphs, &vec![vec![1], vec![3]], true));
    assert!(!can_print(&glyphs, &vec![vec![1, 2]], true));
    assert!(can_print(&Vec::new(), &Vec::new(), true));
}

#[test]
fn renderer_sends_the_whole_plan_when_every_write_succeeds() {
    let plan = print_image(&vec![vec!['x']], &vec![vec![7]], true);
    let (sent, result) = run(plan.clone(), &[]);
    assert_eq!(sent, plan);
    assert_eq!(result, Ok(()));
}

#[test]
fn renderer_with_nothing_to_send_succeeds_at_once() {
    let mut renderer = Renderer::new(Vec::new());
    assert_eq!(renderer.next_action(), Action::Finish(Ok(())));
    renderer.record(Outcome::Failed);
    assert_eq!(renderer.next_action(), Action::Finish(Ok(())));
}

#[test]
fn failed_write_is_followed_by_a_reset_and_reported() {
    let plan = print_image(&vec![vec!['x', 'y']], &vec![vec![7, 8]], true);
    for failing in 0..plan.len() {
        let (sent, result) = run(plan.clone(), &[failing]);
        let mut expected: Vec<Directive> = plan[..=failing].to_vec();
        expected.push(Directive::ResetColor);
        assert_eq!(sent, expected);
        assert_eq!(result, Err(RenderError::IoFailure));
    }
}

#[test]
fn failure_is_reported_even_if_the_reset_fails_too() {
    let plan = print_image(&vec![vec!['x']], &vec![vec![7]], false);
    let (sent, result) = run(plan, &[1, 2]);
    assert_eq!(
        sent,
        vec![Directive::Print('x'), Directive::Print('x'), Directive::ResetColor]
    );
    assert_eq!(result, Err(RenderError::IoFailure));
}

#[test]
fn failed_flush_is_reported() {
    let plan: Vec<Directive> = vec![Directive::ResetColor, Directive::Flush];
    let (sent, result) = run(plan, &[1]);
    assert_eq!(sent, vec![Directive::ResetColor, Directive::Flush, Directive::ResetColor]);
    assert_eq!(result, Err(RenderError::IoFailure));
}

#[test]
fn renderer_steps_one_directive_per_outcome() {
    let mut renderer = Renderer::new(vec![Directive::Print('q'), Directive::Flush]);
    assert_eq!(renderer.next_action(), Action::Emit(Directive::Print('q')));
    assert_eq!(renderer.next_action(), Action::Emit(Directive::Print('q')));
    renderer.record(Outcome::Written);
    assert_eq!(renderer.next_action(), Action::Emit(Directive::Flush));
    renderer.record(Outcome::Written);
    assert_eq!(renderer.next_action(), Action::Finish(Ok(())));
    renderer.record(Outcome::Failed);
    assert_eq!(renderer.next_action(), Action::Finish(Ok(())));
}

#[test]
fn finished_failure_stays_a_failure() {
    let mut renderer = Renderer::new(vec![Directive::Flush]);
    renderer.record(Outcome::Failed);
    assert_eq!(renderer.next_action(), Action::Emit(Directive::ResetColor));
    renderer.record(Outcome::Written);
    assert_eq!(renderer.next_action(), Action::Finish(Err(RenderError::IoFailure)));
    renderer.record(Outcome::Written);
    assert_eq!(renderer.next_action(), Action::Finish(Err(RenderError::IoFailure)));
}
