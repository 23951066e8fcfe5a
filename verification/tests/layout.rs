use client::layout::{
    border, create_layout, layout, Drawable, Glyph, Layout, Rect, BOTTOM_LEFT_CORNER,
    BOTTOM_RIGHT_CORNER, HORIZONTAL_BORDER, TOP_LEFT_CORNER, TOP_RIGHT_CORNER, VERTICAL_BORDER,
};

fn glyph(column: u16, row: u16, symbol: char) -> Glyph {
    Glyph { column, row, symbol }
}

#[test]
fn border_glyphs_are_box_drawing_characters() {
    assert_eq!(TOP_LEFT_CORNER, '╭');
    assert_eq!(TOP_RIGHT_CORNER, '╮');
    assert_eq!(BOTTOM_LEFT_CORNER, '╰');
    assert_eq!(BOTTOM_RIGHT_CORNER, '╯');
    assert_eq!(HORIZONTAL_BORDER, '─');
    assert_eq!(VERTICAL_BORDER, '│');
}

#[test]
fn border_of_a_rectangle() {
    let glyphs = border(2, 5, 4, 3);
    assert_eq!(
        glyphs,
        vec![
            glyph(2, 5, TOP_LEFT_CORNER),
            glyph(5, 5, TOP_RIGHT_CORNER),
            glyph(2, 7, BOTTOM_LEFT_CORNER),
            glyph(5, 7, BOTTOM_RIGHT_CORNER),
            glyph(3, 5, HORIZONTAL_BORDER),
            glyph(3, 7, HORIZONTAL_BORDER),
            glyph(4, 5, HORIZONTAL_BORDER),
            glyph(4, 7, HORIZONTAL_BORDER),
            glyph(2, 6, VERTICAL_BORDER),
            glyph(5, 6, VERTICAL_BORDER),
        ]
    );
}

#[test]
fn border_of_small_rectangles() {
    assert!(border(3, 3, 0, 4).is_empty());
    assert!(border(3, 3, 4, 0).is_empty());
    assert_eq!(
        border(3, 4, 1, 1),
        vec![
            glyph(3, 4, TOP_LEFT_CORNER),
            glyph(3, 4, TOP_RIGHT_CORNER),
            glyph(3, 4, BOTTOM_LEFT_CORNER),
            glyph(3, 4, BOTTOM_RIGHT_CORNER),
        ]
    );
    assert_eq!(border(0, 0, 2, 2).len(), 4);
    assert_eq!(border(0, 0, 3, 2).len(), 6);
}

#[test]
fn border_at_the_far_edge_of_the_screen() {
    let glyphs = border(65533, 65534, 3, 2);
    assert_eq!(glyphs[3], glyph(65535, 65535, BOTTOM_RIGHT_CORNER));
    assert_eq!(glyphs.len(), 6);
}

#[test]
fn layout_splits_the_terminal() {
    assert_eq!(
        layout(200, 50),
        Some(Layout {
            chatbox: Rect { x: 130, y: 1, width: 68, height: 48 },
            local_video: Rect { x: 1, y: 1, width: 128, height: 25 },
            peer_video: Rect { x: 1, y: 26, width: 128, height: 24 },
        })
    );
    assert_eq!(
        layout(132, 2),
        Some(Layout {
            chatbox: Rect { x: 130, y: 1, width: 0, height: 0 },
            local_video: Rect { x: 1, y: 1, width: 128, height: 1 },
            peer_video: Rect { x: 1, y: 2, width: 128, height: 0 },
        })
    );
}

#[test]
fn layout_needs_room() {
    assert_eq!(layout(131, 50), None);
    assert_eq!(layout(200, 1), None);
    assert_eq!(layout(0, 0), None);
}

#[test]
fn panels_are_made_where_the_layout_puts_them() {
    let (chatbox, local, peer) = create_layout(180, 41, 64, 48).unwrap();
    assert_eq!((chatbox.x(), chatbox.y(), chatbox.width(), chatbox.height()), (130, 1, 48, 39));
    assert_eq!((local.x(), local.y(), local.width(), local.height()), (1, 1, 128, 20));
    assert_eq!((peer.x(), peer.y(), peer.width(), peer.height()), (1, 21, 128, 19));
    assert_eq!(local.cells().len(), 18);
    assert_eq!(local.cells()[0].len(), 124);
    assert_eq!(peer.cells().len(), 17);
}

#[test]
fn panels_need_a_camera_with_pixels() {
    assert!(create_layout(180, 41, 0, 48).is_err());
}
