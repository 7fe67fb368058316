use iced_tui::round_layout_list;
use iced_tui::PlannedBox;
use iced_tui::RoundDirection;
use iced_tui::RoundedBox;
use iced_tui::MAX_SIBLINGS;

/// A planned box with floating-point position and size: `(x, y, width, height)`.
type Planned = (f32, f32, f32, f32);

/// Rounds each planned box on its own and notes where the plan left padding,
/// as the caller of the library does before it packs a list.
fn plan(planned: &[Planned], direction: RoundDirection) -> (Vec<PlannedBox>, i16) {
    let mut boxes = Vec::new();
    let mut last_planned_end = 0_f32;
    let mut sum = 0_f32;
    for (index, (x, y, width, height)) in planned.iter().enumerate() {
        let (position, length) = match direction {
            RoundDirection::Horizontal => (*x, *width),
            RoundDirection::Vertical => (*y, *height),
        };
        boxes.push(PlannedBox {
            x: x.round() as i16,
            y: y.round() as i16,
            width: width.round() as i16,
            height: height.round() as i16,
            padded: index > 0 && position - last_planned_end > 0.6_f32,
        });
        last_planned_end = position + length;
        sum += length;
    }
    (boxes, sum.round() as i16)
}

fn round(planned: &[Planned], direction: RoundDirection) -> Vec<RoundedBox> {
    let (boxes, total) = plan(planned, direction);
    round_layout_list(&boxes, total, direction)
}

#[test]
fn it_round_horizontally() {
    let planned_layouts = vec![
        (100.5, 11.3, 10.5, 20.3),
        (111_f32, 11.3, 10.3, 20.5),
        (121.2, 11.3, 10.5, 20.5),
    ];

    let expected_rectangles = vec![
        RoundedBox { x: 101, y: 11, width: 11, height: 20 },
        RoundedBox { x: 112, y: 11, width: 10, height: 21 },
        RoundedBox { x: 122, y: 11, width: 10, height: 21 },
    ];

    let rectangles = round(&planned_layouts, RoundDirection::Horizontal);

    assert_eq!(rectangles.len(), expected_rectangles.len());

    for (index, expected_bound) in expected_rectangles.iter().enumerate() {
        assert_eq!(&rectangles[index], expected_bound);
    }
}

#[test]
fn it_round_vertically() {
    let planned_layouts = vec![
        (11.3, 100.5, 20.3, 10.5),
        (11.3, 111_f32, 20.5, 10.3),
        (11.3, 121.2, 20.5, 10.5),
    ];

    let expected_rectangles = vec![
        RoundedBox { x: 11, y: 101, width: 20, height: 11 },
        RoundedBox { x: 11, y: 112, width: 21, height: 10 },
        RoundedBox { x: 11, y: 122, width: 21, height: 10 },
    ];

    let rectangles = round(&planned_layouts, RoundDirection::Vertical);

    assert_eq!(rectangles.len(), expected_rectangles.len());

    for (index, expected_bound) in expected_rectangles.iter().enumerate() {
        assert_eq!(&rectangles[index], expected_bound);
    }
}

#[test]
fn it_ignore_already_rounded() {
    // Example in diagonal
    let planned_layouts = vec![
        (100_f32, 10_f32, 10_f32, 20_f32),
        (111_f32, 30_f32, 12_f32, 22_f32),
        (123_f32, 54_f32, 13_f32, 24_f32),
    ];

    let expected_rectangles = vec![
        RoundedBox { x: 100, y: 10, width: 10, height: 20 },
        RoundedBox { x: 111, y: 30, width: 12, height: 22 },
        RoundedBox { x: 123, y: 54, width: 13, height: 24 },
    ];

    let rectangles = round(&planned_layouts, RoundDirection::Horizontal);
    assert_eq!(rectangles.len(), expected_rectangles.len());
    for (index, expected_bound) in expected_rectangles.iter().enumerate() {
        assert_eq!(&rectangles[index], expected_bound);
    }

    let rectangles = round(&planned_layouts, RoundDirection::Vertical);
    assert_eq!(rectangles.len(), expected_rectangles.len());
    for (index, expected_bound) in expected_rectangles.iter().enumerate() {
        assert_eq!(&rectangles[index], expected_bound);
    }
}

#[test]
fn siblings_that_touch_in_the_plan_get_no_gap() {
    let rectangles = round(
        &[(100.5, 0.0, 10.5, 1.0), (111.0, 0.0, 10.3, 1.0)],
        RoundDirection::Horizontal,
    );
    assert_eq!(rectangles[0], RoundedBox { x: 101, y: 0, width: 11, height: 1 });
    assert_eq!(rectangles[1], RoundedBox { x: 112, y: 0, width: 10, height: 1 });
    assert_eq!(rectangles[0].x + rectangles[0].width, rectangles[1].x);
}

#[test]
fn padding_that_rounding_would_eat_is_kept_as_one_cell() {
    let rectangles = round(
        &[(100.5, 0.0, 10.5, 1.0), (111.7, 0.0, 10.3, 1.0)],
        RoundDirection::Horizontal,
    );
    assert_eq!(rectangles[0], RoundedBox { x: 101, y: 0, width: 11, height: 1 });
    assert_eq!(rectangles[1], RoundedBox { x: 113, y: 0, width: 10, height: 1 });
    assert_eq!(rectangles[1].x - (rectangles[0].x + rectangles[0].width), 1);
}

#[test]
fn padding_that_survives_rounding_is_not_widened() {
    let planned = vec![
        PlannedBox { x: 0, y: 0, width: 3, height: 1, padded: false },
        PlannedBox { x: 5, y: 0, width: 3, height: 1, padded: true },
    ];
    let rectangles = round_layout_list(&planned, 6, RoundDirection::Horizontal);
    assert_eq!(rectangles[1], RoundedBox { x: 5, y: 0, width: 3, height: 1 });
}

#[test]
fn a_padded_first_sibling_at_the_origin_moves_one_cell() {
    let planned = vec![PlannedBox { x: 0, y: 0, width: 3, height: 1, padded: true }];
    let rectangles = round_layout_list(&planned, 3, RoundDirection::Horizontal);
    assert_eq!(rectangles, vec![RoundedBox { x: 1, y: 0, width: 3, height: 1 }]);
}

#[test]
fn rounded_boxes_never_overlap() {
    let planned = vec![
        PlannedBox { x: 0, y: 0, width: 4, height: 1, padded: false },
        PlannedBox { x: 3, y: 0, width: 4, height: 1, padded: false },
        PlannedBox { x: 5, y: 0, width: 4, height: 1, padded: true },
        PlannedBox { x: 20, y: 0, width: 4, height: 1, padded: false },
    ];
    let rectangles = round_layout_list(&planned, 16, RoundDirection::Horizontal);
    assert_eq!(
        rectangles,
        vec![
            RoundedBox { x: 0, y: 0, width: 4, height: 1 },
            RoundedBox { x: 4, y: 0, width: 4, height: 1 },
            RoundedBox { x: 9, y: 0, width: 4, height: 1 },
            RoundedBox { x: 20, y: 0, width: 4, height: 1 },
        ]
    );
    for i in 0..rectangles.len() {
        for j in (i + 1)..rectangles.len() {
            assert!(rectangles[i].x + rectangles[i].width <= rectangles[j].x);
        }
    }
}

#[test]
fn lengths_are_cut_to_the_planned_total() {
    let planned = vec![
        PlannedBox { x: 0, y: 0, width: 11, height: 1, padded: false },
        PlannedBox { x: 11, y: 0, width: 11, height: 1, padded: false },
        PlannedBox { x: 21, y: 0, width: 11, height: 1, padded: false },
        PlannedBox { x: 32, y: 0, width: 11, height: 1, padded: false },
    ];
    let rectangles = round_layout_list(&planned, 30, RoundDirection::Horizontal);
    let widths: Vec<i32> = rectangles.iter().map(|r| r.width).collect();
    assert_eq!(widths, vec![11, 11, 8, 0]);
    assert_eq!(widths.iter().sum::<i32>(), 30);
    let starts: Vec<i32> = rectangles.iter().map(|r| r.x).collect();
    assert_eq!(starts, vec![0, 11, 22, 32]);
}

#[test]
fn lengths_that_fall_short_of_the_total_are_kept() {
    let planned = vec![
        PlannedBox { x: 0, y: 0, width: 1, height: 10, padded: false },
        PlannedBox { x: 0, y: 10, width: 1, height: 10, padded: false },
        PlannedBox { x: 0, y: 21, width: 1, height: 10, padded: false },
    ];
    let rectangles = round_layout_list(&planned, 31, RoundDirection::Vertical);
    let heights: Vec<i32> = rectangles.iter().map(|r| r.height).collect();
    assert_eq!(heights, vec![10, 10, 10]);
    let starts: Vec<i32> = rectangles.iter().map(|r| r.y).collect();
    assert_eq!(starts, vec![0, 10, 21]);
}

#[test]
fn the_cross_axis_is_kept_as_planned() {
    let planned = vec![
        PlannedBox { x: 7, y: -3, width: 2, height: 9, padded: false },
        PlannedBox { x: 7, y: 40, width: 2, height: 5, padded: false },
    ];
    let rectangles = round_layout_list(&planned, 4, RoundDirection::Horizontal);
    assert_eq!(
        rectangles,
        vec![
            RoundedBox { x: 7, y: -3, width: 2, height: 9 },
            RoundedBox { x: 9, y: 40, width: 2, height: 5 },
        ]
    );
}

#[test]
fn an_empty_list_rounds_to_an_empty_list() {
    let rectangles = round_layout_list(&Vec::new(), 0, RoundDirection::Horizontal);
    assert!(rectangles.is_empty());
}

#[test]
fn the_longest_list_stays_in_range() {
    let planned =
        vec![PlannedBox { x: i16::MAX, y: 0, width: i16::MAX, height: 1, padded: true }; MAX_SIBLINGS];
    let rectangles = round_layout_list(&planned, i16::MAX, RoundDirection::Horizontal);
    assert_eq!(rectangles.len(), MAX_SIBLINGS);
    assert_eq!(rectangles[0], RoundedBox { x: 32767, y: 0, width: 32767, height: 1 });
    assert_eq!(rectangles[1], RoundedBox { x: 65535, y: 0, width: 0, height: 1 });
    assert_eq!(
        rectangles[MAX_SIBLINGS - 1],
        RoundedBox { x: 65534 + MAX_SIBLINGS as i32 - 1, y: 0, width: 0, height: 1 }
    );
}
