use client::input::InputType;
use client::ui::chatbox::{write_rows, Chatbox};
use client::ui::screen::{Screen, ScreenComponent, ScreenOrigin};
use client::ui::tile::{StyledTile, Tile, TileStyle, UPPER_HALF_BLOCK};
use client::ui::video::Video;
use client::ui::{Printable, Ui, Updatable, FRAME_DURATION_MS};

fn blank(count: usize) -> Vec<Tile> {
    vec![Tile::default(); count]
}

fn contents(buffer: &[Tile], stride: usize, row: usize) -> String {
    buffer[row * stride..(row + 1) * stride]
        .iter()
        .map(|tile| if tile.content == UPPER_HALF_BLOCK { '.' } else { tile.content })
        .collect()
}

fn send(chatbox: &mut Chatbox, text: &str) {
    for character in text.chars() {
        chatbox.update(InputType::Normal { character });
    }
    chatbox.update(InputType::Send);
}

#[test]
fn default_tile_is_a_black_picture_cell() {
    assert_eq!(
        Tile::default(),
        Tile { content: UPPER_HALF_BLOCK, top_brightness: 0, bottom_brightness: 0 }
    );
    assert_eq!(FRAME_DURATION_MS, 30);
}

#[test]
fn reset_restores_the_picture_glyph() {
    let mut tile = Tile { content: 'x', top_brightness: 12, bottom_brightness: 200 };
    tile.reset();
    assert_eq!(tile, Tile { content: UPPER_HALF_BLOCK, top_brightness: 12, bottom_brightness: 200 });
}

#[test]
fn text_is_plain_and_picture_cells_are_shaded() {
    let text = Tile { content: 'a', top_brightness: 255, bottom_brightness: 255 };
    assert_eq!(text.style(), TileStyle::Plain);
    let cell = Tile { content: UPPER_HALF_BLOCK, top_brightness: 0, bottom_brightness: 255 };
    assert_eq!(cell.style(), TileStyle::Shaded { foreground: 232, background: 255 });
    let accent = Tile { content: 'é', top_brightness: 128, bottom_brightness: 64 };
    assert_eq!(accent.style(), TileStyle::Shaded { foreground: 244, background: 238 });
    assert_eq!(Tile::normalized(0), 232);
    assert_eq!(Tile::normalized(255), 255);
}

#[test]
fn chatbox_collects_what_is_typed() {
    let mut chatbox = Chatbox::new(10, 5, ScreenOrigin { x: 0, y: 0, stride: 10 });
    chatbox.update(InputType::Normal { character: 'h' });
    chatbox.update(InputType::Normal { character: 'i' });
    chatbox.update(InputType::Normal { character: '!' });
    chatbox.update(InputType::Backspace);
    chatbox.update(InputType::TickUpdate);
    chatbox.update(InputType::Unknown);
    assert_eq!(chatbox.buffered_message(), "hi");
    assert!(chatbox.sent_messages().is_empty());
    chatbox.update(InputType::Send);
    assert_eq!(chatbox.buffered_message(), "");
    assert_eq!(chatbox.sent_messages(), &vec![String::from("hi")]);
    chatbox.update(InputType::Backspace);
    assert_eq!(chatbox.buffered_message(), "");
}

#[test]
fn chatbox_writes_messages_into_its_box() {
    let mut chatbox = Chatbox::new(6, 5, ScreenOrigin { x: 2, y: 1, stride: 9 });
    send(&mut chatbox, "hello world");
    send(&mut chatbox, "ok");
    for character in "typing".chars() {
        chatbox.update(InputType::Normal { character });
    }
    let mut buffer = blank(9 * 7);
    for tile in buffer.iter_mut() {
        tile.top_brightness = 9;
    }
    buffer[0].content = 'Q';
    buffer[9 + 2].content = 'Z';
    chatbox.write_to_screen(&mut buffer);
    assert_eq!(contents(&buffer, 9, 0), "Q........");
    assert_eq!(contents(&buffer, 9, 1), "..hello..");
    assert_eq!(contents(&buffer, 9, 2), "..world..");
    assert_eq!(contents(&buffer, 9, 3), "..typing.");
    assert_eq!(contents(&buffer, 9, 4), ".........");
    assert_eq!(contents(&buffer, 9, 5), ".........");
    assert_eq!(contents(&buffer, 9, 6), ".........");
    assert!(buffer.iter().all(|tile| tile.top_brightness == 9));
    assert_eq!(chatbox.sent_rows(), vec!["hello", "world", "ok"]);
}

#[test]
fn chatbox_cuts_text_at_its_box() {
    let mut chatbox = Chatbox::new(4, 2, ScreenOrigin { x: 1, y: 0, stride: 6 });
    send(&mut chatbox, "ab");
    send(&mut chatbox, "cd");
    send(&mut chatbox, "ef");
    let mut buffer = blank(6 * 3);
    chatbox.write_to_screen(&mut buffer);
    assert_eq!(contents(&buffer, 6, 0), ".ab...");
    assert_eq!(contents(&buffer, 6, 1), ".cd...");
    assert_eq!(contents(&buffer, 6, 2), "......");
}

#[test]
fn clear_screen_resets_the_box_only() {
    let chatbox = Chatbox::new(2, 2, ScreenOrigin { x: 1, y: 1, stride: 4 });
    let mut buffer = vec![Tile { content: 'x', top_brightness: 3, bottom_brightness: 4 }; 16];
    chatbox.clear_screen(&mut buffer);
    assert_eq!(contents(&buffer, 4, 0), "xxxx");
    assert_eq!(contents(&buffer, 4, 1), "x..x");
    assert_eq!(contents(&buffer, 4, 2), "x..x");
    assert_eq!(contents(&buffer, 4, 3), "xxxx");
    assert!(buffer.iter().all(|tile| tile.top_brightness == 3 && tile.bottom_brightness == 4));
}

#[test]
fn video_writes_brightness_into_its_tiles() {
    let mut video = Video::new(2, 4, ScreenOrigin { x: 1, y: 1, stride: 4 });
    assert_eq!(video.width(), 2);
    // Four rows of two pixels with the values 0, 60, 120, 180: the grid's rows fall at
    // 0, 3/4, 6/4, 9/4 of the picture.
    let mut rgb = Vec::new();
    for y in 0..4u8 {
        for _ in 0..2 {
            rgb.extend_from_slice(&[y * 60, y * 60, y * 60]);
        }
    }
    assert!(video.receive_frame(2, 4, &rgb));
    let mut buffer = vec![Tile { content: 'x', top_brightness: 1, bottom_brightness: 2 }; 16];
    video.write_to_screen(&mut buffer);
    let top: Vec<u8> = buffer.iter().map(|tile| tile.top_brightness).collect();
    let bottom: Vec<u8> = buffer.iter().map(|tile| tile.bottom_brightness).collect();
    assert_eq!(top, vec![1, 1, 1, 1, 1, 0, 0, 1, 1, 90, 90, 1, 1, 1, 1, 1]);
    assert_eq!(bottom, vec![2, 2, 2, 2, 2, 45, 45, 2, 2, 135, 135, 2, 2, 2, 2, 2]);
    assert!(buffer.iter().all(|tile| tile.content == 'x'));
}

#[test]
fn video_refuses_frames_of_the_wrong_size() {
    let mut video = Video::new(2, 2, ScreenOrigin { x: 0, y: 0, stride: 2 });
    assert!(!video.receive_frame(2, 2, &[0u8; 11]));
    assert!(!video.receive_frame(0, 2, &[]));
    assert!(video.receive_frame(1, 1, &[255, 255, 255]));
    let mut buffer = blank(2);
    video.write_to_screen(&mut buffer);
    assert!(buffer.iter().all(|tile| tile.top_brightness == 255 && tile.bottom_brightness == 255));
}

#[test]
fn screen_needs_room_for_its_components() {
    assert!(Screen::new(131, 40).is_none());
    assert!(Screen::new(140, 36).is_none());
    assert!(Screen::new(usize::MAX, 40).is_none());
    assert!(Ui::new(100, 100).is_none());
    let screen = Screen::new(140, 37).unwrap();
    assert_eq!(screen.screen_width(), 140);
    assert_eq!(screen.screen_buffer().len(), 140 * 37);
    assert!(screen.screen_buffer().iter().all(|tile| *tile == Tile::default()));
}

#[test]
fn screen_redraws_chat_on_keys_and_picture_on_ticks() {
    let mut ui = Ui::new(140, 40).unwrap();
    ui.update(InputType::Normal { character: 'y' });
    ui.update(InputType::Normal { character: 'o' });
    {
        let tiles = ui.screen().screen_buffer();
        // The chat box begins at column 132 of row 1 and is 38 rows high.
        assert_eq!(tiles[(1 + 35) * 140 + 132].content, 'y');
        assert_eq!(tiles[(1 + 35) * 140 + 133].content, 'o');
        assert_eq!(tiles[140 + 132].content, UPPER_HALF_BLOCK);
    }
    ui.update(InputType::Send);
    {
        let tiles = ui.screen().screen_buffer();
        assert_eq!(tiles[140 + 132].content, 'y');
        assert_eq!(tiles[140 + 133].content, 'o');
        assert_eq!(tiles[(1 + 35) * 140 + 132].content, UPPER_HALF_BLOCK);
    }
}

#[test]
fn screen_shows_camera_frames_on_ticks() {
    let mut screen = Screen::new(140, 40).unwrap();
    assert!(screen.receive_frame(4, 4, &vec![255u8; 48]));
    assert_eq!(screen.screen_buffer()[140 + 2].top_brightness, 0);
    screen.update(InputType::TickUpdate);
    let tiles = screen.screen_buffer();
    assert_eq!(tiles[140 + 2].top_brightness, 255);
    assert_eq!(tiles[140 + 2].bottom_brightness, 255);
    assert_eq!(tiles[36 * 140 + 129].bottom_brightness, 255);
    assert_eq!(tiles[140 + 1].top_brightness, 0);
    assert_eq!(tiles[140 + 130].top_brightness, 0);
    assert_eq!(tiles[37 * 140 + 2].top_brightness, 0);
    assert!(!screen.receive_frame(4, 4, &vec![255u8; 47]));
}

#[test]
fn tile_is_styled_with_its_character() {
    let text = Tile { content: 'a', top_brightness: 255, bottom_brightness: 255 };
    assert_eq!(text.styled(), StyledTile { content: 'a', style: TileStyle::Plain });
    let cell = Tile { content: UPPER_HALF_BLOCK, top_brightness: 255, bottom_brightness: 0 };
    assert_eq!(
        cell.styled(),
        StyledTile {
            content: UPPER_HALF_BLOCK,
            style: TileStyle::Shaded { foreground: 255, background: 232 }
        }
    );
}

#[test]
fn screen_is_printed_line_by_line() {
    let mut ui = Ui::new(140, 38).unwrap();
    ui.update(InputType::Normal { character: 'k' });
    let lines = ui.print();
    assert_eq!(lines.len(), 38);
    assert!(lines.iter().all(|line| line.len() == 140));
    // The typed line lies in the third row from the bottom of the chat box.
    assert_eq!(lines[1 + 33][132], StyledTile { content: 'k', style: TileStyle::Plain });
    let black = StyledTile {
        content: UPPER_HALF_BLOCK,
        style: TileStyle::Shaded { foreground: 232, background: 232 },
    };
    assert_eq!(lines[0][0], black);
    assert_eq!(lines[37][139], black);
    assert_eq!(ui.screen().print(), lines);
}

#[test]
fn rows_of_text_are_cut_at_the_box() {
    let origin = ScreenOrigin { x: 1, y: 1, stride: 5 };
    let rows = vec![String::from("abcdef"), String::new(), String::from("gh"), String::from("ij")];
    let mut buffer = blank(5 * 5);
    write_rows(&mut buffer, origin, 3, 3, &rows, 0);
    assert_eq!(contents(&buffer, 5, 0), ".....");
    assert_eq!(contents(&buffer, 5, 1), ".abc.");
    assert_eq!(contents(&buffer, 5, 2), ".....");
    assert_eq!(contents(&buffer, 5, 3), ".gh..");
    assert_eq!(contents(&buffer, 5, 4), ".....");

    let mut buffer = blank(5 * 5);
    write_rows(&mut buffer, origin, 3, 3, &rows, 2);
    assert_eq!(contents(&buffer, 5, 1), ".....");
    assert_eq!(contents(&buffer, 5, 2), ".....");
    assert_eq!(contents(&buffer, 5, 3), ".abc.");
    assert_eq!(contents(&buffer, 5, 4), ".....");

    let mut buffer = blank(5 * 5);
    write_rows(&mut buffer, origin, 3, 3, &rows, 3);
    assert!(buffer.iter().all(|tile| tile.content == UPPER_HALF_BLOCK));
}

#[test]
fn video_keeps_an_odd_last_row_of_samples() {
    // Three rows of samples over three rows of pixels 30, 60, 90: two rows of tiles, the
    // second with an upper half only.
    let mut video = Video::new(1, 3, ScreenOrigin { x: 0, y: 0, stride: 1 });
    let rgb = [30u8, 30, 30, 60, 60, 60, 90, 90, 90];
    assert!(video.receive_frame(1, 3, &rgb));
    let mut buffer = vec![Tile { content: 'x', top_brightness: 1, bottom_brightness: 2 }; 3];
    video.write_to_screen(&mut buffer);
    // The rows of samples lie at 0, 2/3 and 4/3 of the picture: 30, 50, 70.
    assert_eq!(buffer[0], Tile { content: 'x', top_brightness: 30, bottom_brightness: 50 });
    assert_eq!(buffer[1], Tile { content: 'x', top_brightness: 70, bottom_brightness: 2 });
    assert_eq!(buffer[2], Tile { content: 'x', top_brightness: 1, bottom_brightness: 2 });
}

#[test]
fn video_is_not_cut_to_sixteen_bits() {
    let video = Video::new(70_000, 1, ScreenOrigin { x: 0, y: 0, stride: 70_000 });
    assert_eq!(video.width(), 70_000);
}
