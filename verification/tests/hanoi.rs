use recursion::hanoi::interactive::{
    interact, respond, run_command, try_move_command, CommandError, Reply,
};
use recursion::hanoi::selector::{TowerSelector, TowerSelectorSet};
use recursion::hanoi::solver::{solve, Journal, Move};
use recursion::hanoi::tower::{Disk, Tower};
use recursion::hanoi::tower_set::TowerSet;

fn radii(tower: &Tower) -> Vec<usize> {
    let mut found = Vec::new();
    let mut height = 0;
    while let Some(disk) = tower.get(height) {
        found.push(disk.radius());
        height += 1;
    }
    found
}

fn board(towers: &TowerSet) -> [Vec<usize>; 3] {
    [
        radii(towers.index(TowerSelector::A)),
        radii(towers.index(TowerSelector::B)),
        radii(towers.index(TowerSelector::C)),
    ]
}

fn tower_of(stack: &[usize]) -> Tower {
    let mut tower = Tower::default();
    for &radius in stack {
        tower.push(Disk::new(radius));
    }
    tower
}

fn towers_of(a: &[usize], b: &[usize], c: &[usize]) -> TowerSet {
    TowerSet::from_towers(tower_of(a), tower_of(b), tower_of(c))
}

/// The picture as plain formatting builds it, column by column: every
/// column padded on the right to the width that the widest disk needs.
fn drawn(stacks: &[Vec<usize>; 3]) -> String {
    let widest = stacks.iter().flatten().copied().max().unwrap_or(0);
    let levels = stacks.iter().map(|stack| stack.len()).max().unwrap_or(0);
    let width = 2 * widest + 2 + widest.to_string().len();
    let pole = format!("{:<width$}", format!(" {:^2$}||{:^2$}", "", "", widest));
    let mut text = String::new();
    for _ in 0..3 {
        text += &pole;
    }
    text += "\n";
    for depth in 0..levels {
        for stack in stacks {
            match stack.get(levels - depth - 1) {
                Some(&radius) => {
                    let disk = format!(
                        " {blank:gap$}{fill}_{radius}{fill}{blank:gap$}",
                        blank = "",
                        fill = "@".repeat(radius),
                        gap = widest - radius,
                    );
                    text += &format!("{disk:<width$}");
                }
                None => text += &pole,
            }
        }
        text += "\n";
    }
    for label in ["A", "B", "C"] {
        text += &format!("{:<width$}", format!(" {:^2$} {label}{:^2$}", "", "", widest));
    }
    text
}

fn lines(input: &[&str]) -> Vec<String> {
    input.iter().map(|line| line.to_string()).collect()
}

#[test]
fn test_solve() {
    for n in 0..10 {
        let want = TowerSet::from_towers(Tower::default(), Tower::with_disks(n), Tower::default());
        let mut journal = Journal::new();
        let got = solve(TowerSet::with_disks(n), n, TowerSelectorSet::new(), &mut journal);
        assert_eq!(got.unwrap(), want);
    }
}

#[test]
fn solve_three_disks_end_to_end() {
    let mut journal = Journal::new();
    let solved = solve(TowerSet::with_disks(3), 3, TowerSelectorSet::new(), &mut journal).unwrap();
    assert_eq!(board(&solved), [vec![], vec![3, 2, 1], vec![]]);
    assert_eq!(journal.moves.len(), 7);
    let (a, b, c) = (TowerSelector::A, TowerSelector::B, TowerSelector::C);
    let expected = [(a, b), (a, c), (b, c), (a, b), (c, a), (c, b), (a, b)];
    for (made, (source, target)) in journal.moves.iter().zip(expected) {
        assert_eq!(*made, Move { source, target });
    }
}

#[test]
fn solve_makes_two_to_the_height_minus_one_moves() {
    for n in 0..12usize {
        let mut journal = Journal::new();
        let solved = solve(TowerSet::with_disks(n), n, TowerSelectorSet::new(), &mut journal);
        assert!(solved.is_ok());
        assert_eq!(journal.moves.len(), (1usize << n) - 1);
        assert_eq!(journal.boards.len(), 1usize << n);
    }
}

#[test]
fn solve_keeps_every_tower_in_order_along_the_way() {
    let n = 6;
    let mut journal = Journal::new();
    solve(TowerSet::with_disks(n), n, TowerSelectorSet::new(), &mut journal).unwrap();
    let mut replay = TowerSet::with_disks(n);
    assert_eq!(journal.boards[0], replay.render());
    for (index, made) in journal.moves.iter().enumerate() {
        replay.move_disk(made.source, made.target).unwrap();
        assert_eq!(journal.boards[index + 1], replay.render());
        for stack in board(&replay) {
            assert!(stack.windows(2).all(|pair| pair[0] > pair[1]));
        }
    }
    assert_eq!(board(&replay), [vec![], vec![6, 5, 4, 3, 2, 1], vec![]]);
}

#[test]
fn solve_moves_only_the_top_of_the_source() {
    let start = towers_of(&[5, 4, 3, 2, 1], &[9], &[8, 7]);
    let roles = TowerSelectorSet::from_parts(TowerSelector::A, TowerSelector::C, TowerSelector::B);
    let mut journal = Journal::new();
    let solved = solve(start, 2, roles, &mut journal).unwrap();
    assert_eq!(board(&solved), [vec![5, 4, 3], vec![9], vec![8, 7, 2, 1]]);
    assert_eq!(journal.moves.len(), 3);
}

#[test]
fn solve_with_too_few_disks_reports_the_source() {
    let mut journal = Journal::new();
    let failed = solve(TowerSet::with_disks(2), 4, TowerSelectorSet::new(), &mut journal);
    assert_eq!(failed.unwrap_err().0, TowerSelector::A);
    assert_eq!(journal.moves.len(), 3);
    assert_eq!(journal.boards.len(), 4);
    let mut journal = Journal::new();
    let failed = solve(TowerSet::with_disks(0), 1, TowerSelectorSet::new(), &mut journal);
    assert_eq!(failed.unwrap_err().0, TowerSelector::A);
    assert!(journal.moves.is_empty());
    assert_eq!(journal.boards.len(), 1);
}

#[test]
fn solve_of_height_zero_changes_nothing() {
    let mut journal = Journal::new();
    let solved = solve(TowerSet::with_disks(4), 0, TowerSelectorSet::new(), &mut journal).unwrap();
    assert_eq!(solved, TowerSet::with_disks(4));
    assert!(journal.moves.is_empty());
    assert_eq!(journal.boards, vec![TowerSet::with_disks(4).render()]);
}

#[test]
fn tower_with_disks_counts_down() {
    assert_eq!(radii(&Tower::with_disks(4)), vec![4, 3, 2, 1]);
    assert_eq!(radii(&Tower::with_disks(0)), Vec::<usize>::new());
    assert_eq!(Tower::with_disks(3).count(), 3);
    assert_eq!(Tower::default().count(), 0);
}

#[test]
fn tower_pop_and_push_work_at_the_top() {
    let mut tower = Tower::with_disks(2);
    assert_eq!(tower.peek_top().map(|disk| disk.radius()), Some(1));
    assert_eq!(tower.pop().map(|disk| disk.radius()), Some(1));
    assert_eq!(tower.pop().map(|disk| disk.radius()), Some(2));
    assert!(tower.pop().is_none());
    assert!(tower.peek_top().is_none());
    assert_eq!(tower, Tower::default());
    tower.push(Disk::new(7));
    tower.push(Disk::new(9));
    assert_eq!(radii(&tower), vec![7, 9]);
    assert!(tower.get(2).is_none());
}

#[test]
fn towers_compare_by_their_stacks() {
    assert_eq!(tower_of(&[3, 1]), tower_of(&[3, 1]));
    assert_ne!(tower_of(&[3, 1]), tower_of(&[3, 2]));
    assert_ne!(tower_of(&[3, 1]), tower_of(&[3]));
    assert_eq!(towers_of(&[2], &[], &[1]), towers_of(&[2], &[], &[1]));
    assert_ne!(towers_of(&[2], &[], &[1]), towers_of(&[2], &[1], &[]));
}

#[test]
fn move_disk_relocates_one_disk() {
    let mut towers = TowerSet::with_disks(3);
    assert!(towers.move_disk(TowerSelector::A, TowerSelector::C).is_ok());
    assert_eq!(board(&towers), [vec![3, 2], vec![], vec![1]]);
    assert!(towers.move_disk(TowerSelector::A, TowerSelector::A).is_ok());
    assert_eq!(board(&towers), [vec![3, 2], vec![], vec![1]]);
    let all: Vec<usize> = towers.disks().iter().map(|disk| disk.radius()).collect();
    assert_eq!(all, vec![3, 2, 1]);
}

#[test]
fn move_disk_from_an_empty_tower_fails_and_changes_nothing() {
    let mut towers = TowerSet::with_disks(3);
    let failed = towers.move_disk(TowerSelector::B, TowerSelector::A).unwrap_err();
    assert_eq!(failed.0, TowerSelector::B);
    assert_eq!(failed.message(), "tower B is empty");
    assert_eq!(towers, TowerSet::with_disks(3));
}

#[test]
fn moves_keep_the_disks_of_the_board() {
    let mut towers = towers_of(&[4, 2], &[3], &[1]);
    let plan = [
        (TowerSelector::A, TowerSelector::B),
        (TowerSelector::C, TowerSelector::A),
        (TowerSelector::C, TowerSelector::A),
        (TowerSelector::B, TowerSelector::C),
        (TowerSelector::B, TowerSelector::B),
    ];
    for (source, target) in plan {
        let _ = towers.move_disk(source, target);
        let mut all: Vec<usize> = towers.disks().iter().map(|disk| disk.radius()).collect();
        all.sort();
        assert_eq!(all, vec![1, 2, 3, 4]);
    }
    assert_eq!(board(&towers), [vec![4, 1], vec![3], vec![2]]);
}

#[test]
fn towers_come_in_label_order() {
    let towers = towers_of(&[3], &[2, 1], &[]);
    let counts: Vec<usize> = towers.towers().iter().map(|tower| tower.count()).collect();
    assert_eq!(counts, vec![1, 2, 0]);
    assert_eq!(radii(towers.towers()[1]), vec![2, 1]);
}

#[test]
fn index_mut_reaches_one_tower() {
    let mut towers = TowerSet::with_disks(2);
    towers.index_mut(TowerSelector::C).push(Disk::new(5));
    assert_eq!(board(&towers), [vec![2, 1], vec![], vec![5]]);
}

#[test]
fn selectors_are_read_from_capital_letters_only() {
    assert_eq!(TowerSelector::from_str("A").unwrap(), TowerSelector::A);
    assert_eq!(TowerSelector::from_str("B").unwrap(), TowerSelector::B);
    assert_eq!(TowerSelector::from_str("C").unwrap(), TowerSelector::C);
    for bad in ["", "a", "D", "AB", " A", "\u{c9}"] {
        let error = TowerSelector::from_str(bad).unwrap_err();
        assert_eq!(error.0, bad);
        assert_eq!(error.message(), format!("{bad}: bad tower selector"));
    }
    assert_eq!(TowerSelector::from_char('B'), Some(TowerSelector::B));
    assert_eq!(TowerSelector::from_char('b'), None);
    assert_eq!(TowerSelector::A.label(), "A");
    assert_eq!(TowerSelector::C.label(), "C");
}

#[test]
fn selector_set_keeps_its_parts() {
    let usual = TowerSelectorSet::new();
    assert_eq!(usual.source(), TowerSelector::A);
    assert_eq!(usual.target(), TowerSelector::B);
    assert_eq!(usual.buffer(), TowerSelector::C);
    let other = TowerSelectorSet::from_parts(TowerSelector::C, TowerSelector::A, TowerSelector::B);
    assert_eq!(other.source(), TowerSelector::C);
    assert_eq!(other.target(), TowerSelector::A);
    assert_eq!(other.buffer(), TowerSelector::B);
}

#[test]
fn render_of_the_start_of_a_small_puzzle() {
    let text = TowerSet::with_disks(2).render();
    let expected = concat_lines(&[
        "   ||     ||     ||  ",
        "  @_1@    ||     ||  ",
        " @@_2@@   ||     ||  ",
        "    A      B      C  ",
    ]);
    assert_eq!(text, expected);
}

fn concat_lines(rows: &[&str]) -> String {
    rows.join("\n")
}

#[test]
fn render_shows_bare_poles_above_short_towers() {
    let text = towers_of(&[3, 1], &[], &[2]).render();
    let expected = concat_lines(&[
        "    ||       ||       ||   ",
        "   @_1@      ||       ||   ",
        " @@@_3@@@    ||     @@_2@@ ",
        "     A        B        C   ",
    ]);
    assert_eq!(text, expected);
}

#[test]
fn render_with_a_radius_of_two_digits() {
    let text = towers_of(&[10], &[], &[9]).render();
    let pole = "           ||           ";
    let expected = concat_lines(&[
        &format!("{pole}{pole}{pole}"),
        &format!(" @@@@@@@@@@_10@@@@@@@@@@{pole}  @@@@@@@@@_9@@@@@@@@@  "),
        "            A                       B                       C           ",
    ]);
    assert_eq!(text, expected);
}

#[test]
fn render_of_an_empty_board() {
    assert_eq!(TowerSet::with_disks(0).render(), " || || ||\n  A  B  C");
}

#[test]
fn render_agrees_with_plain_formatting() {
    let boards = [
        towers_of(&[], &[], &[]),
        towers_of(&[3, 2, 1], &[], &[]),
        towers_of(&[3], &[1], &[2]),
        towers_of(&[4, 3, 2], &[1], &[]),
        towers_of(&[], &[12, 10, 9], &[11, 1]),
        towers_of(&[1, 5], &[], &[100]),
    ];
    for towers in boards {
        assert_eq!(towers.render(), drawn(&board(&towers)));
    }
}

#[test]
fn render_is_the_same_each_time_and_leaves_the_board_alone() {
    let towers = towers_of(&[4, 3], &[2], &[1]);
    let first = towers.render();
    let second = towers.render();
    assert_eq!(first, second);
    assert_eq!(board(&towers), [vec![4, 3], vec![2], vec![1]]);
}

#[test]
fn render_uses_one_width_for_every_column() {
    let boards = [
        (towers_of(&[3], &[1], &[]), 3, 1),
        (towers_of(&[1], &[], &[3]), 3, 1),
        (towers_of(&[10], &[], &[]), 10, 2),
        (towers_of(&[2], &[12, 7], &[3]), 12, 2),
        (towers_of(&[1, 5], &[], &[100]), 100, 3),
        (towers_of(&[], &[], &[]), 0, 1),
    ];
    for (towers, widest, digits) in boards {
        let text = towers.render();
        let pole_tops = text.lines().next().unwrap();
        for row in text.lines() {
            assert_eq!(row.chars().count(), 3 * (2 * widest + 2 + digits));
            // The poles of the towers stand at the same places in every row
            // that shows them.
            for (place, sign) in row.chars().enumerate() {
                if sign == '|' {
                    assert_eq!(pole_tops.chars().nth(place), Some('|'));
                }
            }
        }
    }
}

#[test]
fn command_ab_then_ba_moves_a_disk_and_back() {
    let mut towers = TowerSet::with_disks(3);
    assert!(matches!(respond(&mut towers, "AB"), Reply::Continue));
    assert_eq!(board(&towers), [vec![3, 2], vec![1], vec![]]);
    assert!(matches!(respond(&mut towers, "BA"), Reply::Continue));
    assert_eq!(towers, TowerSet::with_disks(3));
}

#[test]
fn command_q_ends_the_session_without_a_change() {
    let mut towers = TowerSet::with_disks(3);
    for line in ["Q", "q", "  quit  ", "QA"] {
        let reply = respond(&mut towers, line);
        assert!(reply.is_quit());
        assert_eq!(reply.warning(), None);
        assert_eq!(towers, TowerSet::with_disks(3));
    }
}

#[test]
fn empty_line_is_ignored() {
    let mut towers = TowerSet::with_disks(3);
    for line in ["", "   ", "\t\n"] {
        let reply = respond(&mut towers, line);
        assert!(matches!(reply, Reply::Continue));
        assert!(!reply.is_quit());
        assert_eq!(towers, TowerSet::with_disks(3));
    }
}

#[test]
fn command_zz_warns_of_the_selector() {
    let mut towers = TowerSet::with_disks(3);
    let reply = respond(&mut towers, "ZZ");
    assert!(matches!(&reply, Reply::Warning(CommandError::Parse(error)) if error.0 == "Z"));
    assert_eq!(reply.warning().unwrap(), "Z: bad tower selector");
    assert_eq!(towers, TowerSet::with_disks(3));
    let reply = respond(&mut towers, "AZ");
    assert_eq!(reply.warning().unwrap(), "Z: bad tower selector");
    assert_eq!(towers, TowerSet::with_disks(3));
}

#[test]
fn command_from_an_empty_tower_warns() {
    let mut towers = TowerSet::with_disks(3);
    let reply = respond(&mut towers, "ca");
    assert!(
        matches!(&reply, Reply::Warning(CommandError::EmptyTower(error)) if error.0 == TowerSelector::C)
    );
    assert_eq!(reply.warning().unwrap(), "tower C is empty");
    assert_eq!(towers, TowerSet::with_disks(3));
}

#[test]
fn other_lengths_are_bad_commands() {
    let mut towers = TowerSet::with_disks(3);
    for line in ["A", "ABC", "A B", "\u{e9}"] {
        let reply = respond(&mut towers, line);
        assert!(matches!(reply, Reply::BadCommand));
        assert_eq!(reply.warning().unwrap(), "bad command");
        assert_eq!(towers, TowerSet::with_disks(3));
    }
}

#[test]
fn respond_puts_the_line_in_capitals_and_trims_it() {
    let mut towers = TowerSet::with_disks(2);
    assert!(matches!(respond(&mut towers, "  ac \n"), Reply::Continue));
    assert_eq!(board(&towers), [vec![2], vec![], vec![1]]);
    let mut towers = TowerSet::with_disks(2);
    assert!(matches!(run_command(&mut towers, "ac"), Reply::Warning(_)));
    assert!(matches!(run_command(&mut towers, " AC"), Reply::BadCommand));
    assert_eq!(towers, TowerSet::with_disks(2));
}

#[test]
fn try_move_command_reads_source_before_target() {
    let mut towers = TowerSet::with_disks(1);
    let failed = try_move_command(&mut towers, "x", "y").unwrap_err();
    assert_eq!(failed.message(), "x: bad tower selector");
    let failed = try_move_command(&mut towers, "B", "y").unwrap_err();
    assert_eq!(failed.message(), "y: bad tower selector");
    let failed = try_move_command(&mut towers, "B", "A").unwrap_err();
    assert_eq!(failed.message(), "tower B is empty");
    assert_eq!(towers, TowerSet::with_disks(1));
    assert!(try_move_command(&mut towers, "A", "C").is_ok());
    assert_eq!(board(&towers), [vec![], vec![], vec![1]]);
}

#[test]
fn session_runs_until_quit() {
    let input = lines(&["ab", "", "zz", "ac", "ba", "hello", "q", "cb"]);
    let session = interact(TowerSet::with_disks(3), &input);
    assert_eq!(board(&session.towers), [vec![3, 1], vec![], vec![2]]);
    assert_eq!(session.replies.len(), 7);
    assert_eq!(session.boards.len(), 7);
    assert!(session.replies[6].is_quit());
    let warnings: Vec<Option<String>> =
        session.replies.iter().map(|reply| reply.warning()).collect();
    assert_eq!(
        warnings,
        vec![
            None,
            None,
            Some("Z: bad tower selector".to_string()),
            None,
            None,
            Some("bad command".to_string()),
            None,
        ]
    );
    assert_eq!(session.boards[0], TowerSet::with_disks(3).render());
    assert_eq!(session.boards[1], towers_of(&[3, 2], &[1], &[]).render());
    assert_eq!(session.boards[6], session.towers.render());
}

#[test]
fn session_ends_with_the_input() {
    let session = interact(TowerSet::with_disks(2), &lines(&["AC", "AB", "CB"]));
    assert_eq!(board(&session.towers), [vec![], vec![2, 1], vec![]]);
    assert_eq!(session.replies.len(), 3);
    assert_eq!(session.boards.len(), 4);
    let session = interact(TowerSet::with_disks(2), &lines(&[]));
    assert_eq!(session.towers, TowerSet::with_disks(2));
    assert!(session.replies.is_empty());
    assert_eq!(session.boards, vec![TowerSet::with_disks(2).render()]);
}
