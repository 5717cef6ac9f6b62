use termris::model::board::Board;
use termris::packet::Packet;
use termris::view::{NColor, PALETTE_LEN};

#[test]
fn colors_have_their_numbers() {
    assert_eq!(NColor::Black.argb(), 0x00000000);
    assert_eq!(NColor::Black_.argb(), 0xc0ffffff);
    assert_eq!(NColor::Gray.argb(), 0x00a0a0a0);
    assert_eq!(NColor::Gray_.argb(), 0xc0404040);
    assert_eq!(NColor::Red.argb(), 0x00f04040);
    assert_eq!(NColor::Red_.argb(), 0xc040f0f0);
    assert_eq!(NColor::Green.argb(), 0x0040f040);
    assert_eq!(NColor::Green_.argb(), 0xc0f040f0);
    assert_eq!(NColor::Blue.argb(), 0x004040f0);
    assert_eq!(NColor::Blue_.argb(), 0xc0f0f040);
    assert_eq!(NColor::Cyan.argb(), 0x0040f0f0);
    assert_eq!(NColor::Cyan_.argb(), 0xc0f04040);
    assert_eq!(NColor::Magenta.argb(), 0x00f040f0);
    assert_eq!(NColor::Magenta_.argb(), 0xc040f040);
    assert_eq!(NColor::Yellow.argb(), 0x00f0f040);
    assert_eq!(NColor::Yellow_.argb(), 0xc04040f0);
    assert_eq!(NColor::Orange.argb(), 0x00f0c040);
    assert_eq!(NColor::Orange_.argb(), 0xc040c0f0);
    assert_eq!(NColor::Violet.argb(), 0x00c040f0);
    assert_eq!(NColor::Violet_.argb(), 0xc0c0f040);
    assert_eq!(NColor::White.argb(), 0x00f0f0f0);
    assert_eq!(NColor::White_.argb(), 0xc0202020);
    assert_eq!(NColor::LightRed.argb(), 0x00f02060);
    assert_eq!(NColor::LightRed_.argb(), 0xc060f020);
    assert_eq!(NColor::LightGreen.argb(), 0x0060f020);
    assert_eq!(NColor::LightGreen_.argb(), 0xc02060f0);
    assert_eq!(NColor::LightBlue.argb(), 0x002060f0);
    assert_eq!(NColor::LightBlue_.argb(), 0xc0f02060);
    assert_eq!(NColor::LightBlack.argb(), 0x00202020);
    assert_eq!(NColor::LightBlack_.argb(), 0xc0f0f0f0);
    assert_eq!(NColor::DarkGray.argb(), 0x00606060);
    assert_eq!(NColor::DarkGray_.argb(), 0xc0c0c0c0);
}

#[test]
fn nop_gives_red_green_blue() {
    assert_eq!(NColor::Black.nop(), (0, 0, 0));
    assert_eq!(NColor::Black_.nop(), (255, 255, 255));
    assert_eq!(NColor::Red.nop(), (0xf0, 0x40, 0x40));
    assert_eq!(NColor::Orange.nop(), (0xf0, 0xc0, 0x40));
    assert_eq!(NColor::LightBlue.nop(), (0x20, 0x60, 0xf0));
    assert_eq!(NColor::LightBlue_.nop(), (0xf0, 0x20, 0x60));
    assert_eq!(NColor::DarkGray_.nop(), (0xc0, 0xc0, 0xc0));
}

#[test]
fn palette_lists_each_color_before_its_foreground() {
    let p = NColor::palette();
    assert_eq!(p.len(), PALETTE_LEN);
    assert_eq!(p.len(), 32);
    let want = [
        NColor::Black,
        NColor::Black_,
        NColor::Gray,
        NColor::Gray_,
        NColor::Red,
        NColor::Red_,
        NColor::Green,
        NColor::Green_,
        NColor::Blue,
        NColor::Blue_,
        NColor::Cyan,
        NColor::Cyan_,
        NColor::Magenta,
        NColor::Magenta_,
        NColor::Yellow,
        NColor::Yellow_,
        NColor::Orange,
        NColor::Orange_,
        NColor::Violet,
        NColor::Violet_,
        NColor::White,
        NColor::White_,
        NColor::LightRed,
        NColor::LightRed_,
        NColor::LightGreen,
        NColor::LightGreen_,
        NColor::LightBlue,
        NColor::LightBlue_,
        NColor::LightBlack,
        NColor::LightBlack_,
        NColor::DarkGray,
        NColor::DarkGray_,
    ];
    assert_eq!(p, want.to_vec());
    for i in 0..16 {
        assert_eq!(p[2 * i].argb() >> 24, 0x00);
        assert_eq!(p[2 * i + 1].argb() >> 24, 0xc0);
    }
}

#[test]
fn every_cell_color_has_a_palette_entry() {
    let p = NColor::palette();
    let mut b = Board::new(2, 2);
    let msg = " ".to_string();
    for v in 0..=255u8 {
        b.fld[1][1] = v;
        let k = b.cell_packet(1, 1, &msg);
        assert!((k.fgc as usize) < p.len());
        assert_eq!(k.bgc + 1, k.fgc);
    }
    b.fld[1][1] = 0x11;
    assert_eq!(p[b.cell_packet(1, 1, &msg).bgc as usize], NColor::Gray);
    b.fld[1][1] = 0x22;
    assert_eq!(p[b.cell_packet(1, 1, &msg).bgc as usize], NColor::Red);
    b.fld[1][1] = 0x2f;
    assert_eq!(p[b.cell_packet(1, 1, &msg).fgc as usize], NColor::DarkGray_);
}

#[test]
fn packet_gives_its_numbers_and_its_text() {
    let msg = "grüß".to_string();
    let p = Packet { x: 1, y: 2, st: 3, bgc: 4, fgc: 5, msg: &msg };
    assert_eq!(p.to_vec(), vec![1, 2, 3, 4, 5]);
    assert_eq!(p.as_str(), "grüß");
    assert_eq!(p.as_bytes(), &[0x67, 0x72, 0xc3, 0xbc, 0xc3, 0x9f]);
    let empty = String::new();
    let p = Packet { x: 65535, y: 0, st: 0, bgc: 0, fgc: 65535, msg: &empty };
    assert_eq!(p.to_vec(), vec![65535, 0, 0, 0, 65535]);
    assert_eq!(p.as_str(), "");
    assert!(p.as_bytes().is_empty());
}
