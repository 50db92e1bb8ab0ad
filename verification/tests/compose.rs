use hayabusa::block::{read_block, write_block};
use hayabusa::compose::{
    add_ascii_art, align, align_blocks, lift_lines, place_blocks_adjacent, place_lines_adjacent,
    to_axis, vertically_normalize, widen_lines, AxisAlignment,
};
use hayabusa::config::{Alignment, ArtPlacement};

fn aligned(blocks: &[&str], placement: ArtPlacement, alignment: Alignment) -> Vec<String> {
    let blocks: Vec<String> = blocks.iter().map(|block| block.to_string()).collect();
    align(&blocks, placement, alignment)
}

#[test]
fn art_on_the_left_centred_with_a_gap_of_one() {
    let both = aligned(
        &["AA\nBB\nCC", "CPU: X\nRAM: Y"],
        ArtPlacement::Left,
        Alignment::Center,
    );
    assert_eq!(both[0], "AA\nBB\nCC");
    assert_eq!(both[1], "CPU: X\nRAM: Y\n      ");
    let full = add_ascii_art(&both[0], both[1].clone(), ArtPlacement::Left, 1);
    assert_eq!(full, "AA CPU: X\nBB RAM: Y\nCC       \n");
    assert_eq!(full.lines().count(), 3);
}

#[test]
fn art_on_the_left_with_a_shorter_line_in_the_text() {
    let both = aligned(&["AA\nBB\nCC", "CPU: X\nRAM"], ArtPlacement::Left, Alignment::Center);
    assert_eq!(both[1], "CPU: X\nRAM   \n      ");
    let full = add_ascii_art(&both[0], both[1].clone(), ArtPlacement::Left, 1);
    assert_eq!(full, "AA CPU: X\nBB RAM   \nCC       \n");
}

#[test]
fn alignment_names_mean_start_middle_and_end() {
    assert_eq!(to_axis(Alignment::Left), AxisAlignment::Start);
    assert_eq!(to_axis(Alignment::Top), AxisAlignment::Start);
    assert_eq!(to_axis(Alignment::Center), AxisAlignment::Center);
    assert_eq!(to_axis(Alignment::Right), AxisAlignment::End);
    assert_eq!(to_axis(Alignment::Bottom), AxisAlignment::End);
}

#[test]
fn beside_each_other_blocks_get_one_height() {
    let blocks = ["a", "1\n2\n3\n4"];
    assert_eq!(aligned(&blocks, ArtPlacement::Left, Alignment::Top)[0], "a\n \n \n ");
    assert_eq!(aligned(&blocks, ArtPlacement::Right, Alignment::Bottom)[0], " \n \n \na");
    assert_eq!(aligned(&blocks, ArtPlacement::Left, Alignment::Center)[0], " \na\n \n ");
    assert_eq!(aligned(&blocks, ArtPlacement::Left, Alignment::Left)[0], "a\n \n \n ");
    assert_eq!(aligned(&blocks, ArtPlacement::Left, Alignment::Right)[0], " \n \n \na");
    assert_eq!(aligned(&blocks, ArtPlacement::Left, Alignment::Center)[1], "1\n2\n3\n4");
}

#[test]
fn the_line_that_cannot_be_shared_goes_below() {
    let blocks = ["ab", "1\n2\n3\n4\n5\n6"];
    assert_eq!(
        aligned(&blocks, ArtPlacement::Left, Alignment::Center)[0],
        "  \n  \nab\n  \n  \n  "
    );
}

#[test]
fn above_each_other_blocks_get_one_width() {
    let blocks = ["ab\nc", "12345"];
    assert_eq!(aligned(&blocks, ArtPlacement::Top, Alignment::Left)[0], "ab   \nc    ");
    assert_eq!(aligned(&blocks, ArtPlacement::Bottom, Alignment::Right)[0], "   ab\n   c ");
    assert_eq!(aligned(&blocks, ArtPlacement::Top, Alignment::Center)[0], " ab  \n c   ");
    assert_eq!(aligned(&blocks, ArtPlacement::Top, Alignment::Top)[0], "ab   \nc    ");
    assert_eq!(aligned(&blocks, ArtPlacement::Top, Alignment::Bottom)[0], "   ab\n   c ");
    assert_eq!(aligned(&blocks, ArtPlacement::Top, Alignment::Center)[1], "12345");
}

#[test]
fn blocks_of_one_size_are_only_normalized() {
    let blocks = ["ab\ncd", "12\n34"];
    for placement in [ArtPlacement::Left, ArtPlacement::Right, ArtPlacement::Top, ArtPlacement::Bottom] {
        for alignment in [Alignment::Left, Alignment::Center, Alignment::Right, Alignment::Top, Alignment::Bottom] {
            assert_eq!(aligned(&blocks, placement, alignment), vec!["ab\ncd", "12\n34"]);
        }
    }
}

#[test]
fn no_blocks_align_to_no_blocks() {
    assert_eq!(aligned(&[], ArtPlacement::Left, Alignment::Center), Vec::<String>::new());
    assert_eq!(align_blocks(&Vec::new(), ArtPlacement::Top, Alignment::Center).len(), 0);
}

#[test]
fn an_empty_block_is_filled_with_empty_lines() {
    let both = aligned(&["", "a\nb"], ArtPlacement::Left, Alignment::Top);
    assert_eq!(both[0], "\n");
    assert_eq!(both[1], "a\nb");
}

#[test]
fn lifting_and_widening_work_on_lines() {
    let block = read_block("ab");
    assert_eq!(write_block(&lift_lines(&block, 3, AxisAlignment::End)), "  \n  \nab");
    assert_eq!(write_block(&lift_lines(&block, 0, AxisAlignment::End)), "ab");
    assert_eq!(write_block(&widen_lines(&block, 5, AxisAlignment::Center)), " ab  ");
    assert_eq!(write_block(&widen_lines(&block, 1, AxisAlignment::Center)), "ab");
}

#[test]
fn adjacent_blocks_are_joined_line_by_line() {
    assert_eq!(place_blocks_adjacent(vec!["ab\ncd", "|\n|", "12\n34"]), "ab|12\ncd|34\n");
    assert_eq!(place_blocks_adjacent(vec!["ab\ncd\nef", " ", "1"]), "ab 1\ncd  \nef  \n");
    assert_eq!(place_blocks_adjacent(vec!["a"]), "a\n");
}

#[test]
fn no_blocks_placed_give_the_empty_text() {
    assert_eq!(place_blocks_adjacent(vec![]), "");
    assert_eq!(place_blocks_adjacent(vec!["", ""]), "");
    assert_eq!(place_lines_adjacent(&Vec::new()), Vec::<Vec<char>>::new());
}

#[test]
fn an_empty_block_beside_others_adds_nothing() {
    assert_eq!(place_blocks_adjacent(vec!["", "a\nb"]), "a\nb\n");
    assert_eq!(place_blocks_adjacent(vec!["a\nb", "", "c\nd"]), "ac\nbd\n");
}

#[test]
fn vertical_normalizing_fills_with_lines_of_the_block_width() {
    assert_eq!(
        vertically_normalize(vec!["ab\nc", "1\n2\n3", ""]),
        vec!["ab\nc\n  ", "1\n2\n3", "\n\n"]
    );
    assert_eq!(vertically_normalize(vec![]), Vec::<String>::new());
}

#[test]
fn art_goes_on_each_side() {
    let art = "AA\nBB";
    let fetch = "12\n34".to_string();
    assert_eq!(add_ascii_art(art, fetch.clone(), ArtPlacement::Left, 2), "AA  12\nBB  34\n");
    assert_eq!(add_ascii_art(art, fetch.clone(), ArtPlacement::Right, 2), "12  AA\n34  BB\n");
    assert_eq!(add_ascii_art(art, fetch.clone(), ArtPlacement::Top, 2), "AA\nBB\n \n \n12\n34");
    assert_eq!(add_ascii_art(art, fetch.clone(), ArtPlacement::Bottom, 2), "12\n34\n \n \nAA\nBB");
}

#[test]
fn no_gap_adds_nothing_between() {
    let art = "AA\nBB";
    let fetch = "12\n34".to_string();
    assert_eq!(add_ascii_art(art, fetch.clone(), ArtPlacement::Left, 0), "AA12\nBB34\n");
    assert_eq!(add_ascii_art(art, fetch.clone(), ArtPlacement::Top, 0), "AA\nBB\n12\n34");
}

#[test]
fn no_art_leaves_the_gap_and_the_text() {
    assert_eq!(add_ascii_art("", "12\n34".to_string(), ArtPlacement::Left, 1), " 12\n 34\n");
    assert_eq!(add_ascii_art("", "12".to_string(), ArtPlacement::Top, 1), " \n12");
    assert_eq!(add_ascii_art("", String::new(), ArtPlacement::Left, 0), "");
}
