use maze_generator::conformance::{
    all_coordinates_have_fields, all_fields_connected, convert_seed, generate_maze, pad_seed,
    route_from_start_to_goal_exists, test_all_coordinates_have_fields, test_all_fields_connected,
    test_generation_is_deterministic, test_route_from_start_to_goal_exists, Verdict,
};
use maze_generator::prelude::{Coordinates, Direction, Generator, Maze, MazeGraph, MazeView};

/// Walks at random and backs up at dead ends, until every cell was visited.
struct Backtracker {
    state: u64,
}

impl Backtracker {
    fn draw(&mut self, below: usize) -> usize {
        self.state ^= self.state << 13;
        self.state ^= self.state >> 7;
        self.state ^= self.state << 17;
        (self.state % below as u64) as usize
    }
}

impl Generator for Backtracker {
    fn seeded(_seed: [u8; 32]) -> Self {
        unreachable!("only contracts speak of this")
    }

    fn outcome(&self, _width: i32, _height: i32) -> MazeView {
        unreachable!("only contracts speak of this")
    }

    fn new(seed: Option<[u8; 32]>) -> Self {
        let seed = seed.unwrap_or([0x5a; 32]);
        let mut state: u64 = 0x9e37_79b9_7f4a_7c15;
        for byte in seed {
            state = state.rotate_left(5) ^ (byte as u64);
            state = state.wrapping_mul(0x0100_0000_01b3);
        }
        Backtracker { state: state | 1 }
    }

    fn generate(&mut self, width: i32, height: i32) -> Maze {
        let start = Coordinates::new(0, 0);
        let goal = Coordinates::new(width - 1, height - 1);
        let mut maze = Maze::new(width, height, start, goal);
        let mut visited = vec![false; (width * height) as usize];
        let mut stack = vec![start];
        visited[0] = true;
        while let Some(current) = stack.last().copied() {
            let mut open: Vec<Direction> = Vec::new();
            for direction in Direction::all() {
                let next = current.next(&direction);
                if maze.are_coordinates_inside(&next) && !visited[(next.y * width + next.x) as usize] {
                    open.push(direction);
                }
            }
            if open.is_empty() {
                stack.pop();
            } else {
                let direction = open[self.draw(open.len())];
                let next = current.next(&direction);
                assert!(maze.open_passage(&current, &direction));
                visited[(next.y * width + next.x) as usize] = true;
                stack.push(next);
            }
        }
        maze
    }
}

/// Breaks the contract: it opens no passage at all.
struct Wall;

impl Generator for Wall {
    fn seeded(_seed: [u8; 32]) -> Self {
        unreachable!("only contracts speak of this")
    }

    fn outcome(&self, _width: i32, _height: i32) -> MazeView {
        unreachable!("only contracts speak of this")
    }

    fn new(_seed: Option<[u8; 32]>) -> Self {
        Wall
    }

    fn generate(&mut self, width: i32, height: i32) -> Maze {
        Maze::new(width, height, Coordinates::new(0, 0), Coordinates::new(width - 1, height - 1))
    }
}

/// Breaks the contract: start and goal share a cell.
struct SameSpot;

impl Generator for SameSpot {
    fn seeded(_seed: [u8; 32]) -> Self {
        unreachable!("only contracts speak of this")
    }

    fn outcome(&self, _width: i32, _height: i32) -> MazeView {
        unreachable!("only contracts speak of this")
    }

    fn new(_seed: Option<[u8; 32]>) -> Self {
        SameSpot
    }

    fn generate(&mut self, width: i32, height: i32) -> Maze {
        let mut maze = Maze::new(width, height, Coordinates::new(0, 0), Coordinates::new(0, 0));
        for x in 0..width {
            for y in 0..height {
                maze.open_passage(&Coordinates::new(x, y), &Direction::East);
                maze.open_passage(&Coordinates::new(x, y), &Direction::South);
            }
        }
        maze
    }
}

/// Breaks the contract: it never produces the same maze twice.
struct Counter {
    calls: i32,
}

impl Generator for Counter {
    fn seeded(_seed: [u8; 32]) -> Self {
        unreachable!("only contracts speak of this")
    }

    fn outcome(&self, _width: i32, _height: i32) -> MazeView {
        unreachable!("only contracts speak of this")
    }

    fn new(_seed: Option<[u8; 32]>) -> Self {
        Counter { calls: 0 }
    }

    fn generate(&mut self, width: i32, height: i32) -> Maze {
        self.calls += 1;
        let mut maze = Maze::new(width, height, Coordinates::new(0, 0), Coordinates::new(width - 1, height - 1));
        for x in 0..width {
            for y in 0..height {
                maze.open_passage(&Coordinates::new(x, y), &Direction::East);
                if x % (self.calls + 1) == 0 {
                    maze.open_passage(&Coordinates::new(x, y), &Direction::South);
                }
            }
        }
        maze
    }
}

fn seeded(seed: u128) -> Backtracker {
    Backtracker::new(Some(convert_seed(seed)))
}

#[test]
fn seed_holds_the_number_and_sixteen_zeros() {
    let number: u128 = 0x0102_0304_0506_0708_090a_0b0c_0d0e_0f10;
    let seed = convert_seed(number);
    let low_first = number.to_le_bytes();
    let high_first = number.to_be_bytes();
    assert!(seed[..16] == low_first || seed[..16] == high_first);
    assert_eq!(seed[16..], [0u8; 16]);
    assert_eq!(seed[..16], number.to_ne_bytes());
}

#[test]
fn seed_of_zero_is_all_zeros() {
    assert_eq!(convert_seed(0), [0u8; 32]);
}

#[test]
fn seed_of_one_has_a_single_one() {
    let seed = convert_seed(1);
    assert_eq!(seed.iter().filter(|byte| **byte == 1).count(), 1);
    assert_eq!(seed.iter().filter(|byte| **byte == 0).count(), 31);
    assert!(seed[0] == 1 || seed[15] == 1);
}

#[test]
fn seed_of_the_largest_number() {
    let seed = convert_seed(u128::MAX);
    assert_eq!(seed[..16], [0xffu8; 16]);
    assert_eq!(seed[16..], [0u8; 16]);
}

#[test]
fn different_numbers_give_different_seeds() {
    assert_ne!(convert_seed(1), convert_seed(256));
    assert_ne!(convert_seed(42), convert_seed(43));
}

#[test]
fn no_maze_for_a_dimension_that_is_not_positive() {
    let mut generator = seeded(1);
    assert!(generate_maze(&mut generator, 0, 5).is_none());
    assert!(generate_maze(&mut generator, 5, 0).is_none());
    assert!(generate_maze(&mut generator, -1, 5).is_none());
    assert!(generate_maze(&mut generator, 5, -1).is_none());
    assert!(generate_maze(&mut generator, 0, 0).is_none());
    assert!(generate_maze(&mut generator, i32::MIN, i32::MIN).is_none());
}

#[test]
fn no_maze_for_a_single_cell() {
    let mut generator = seeded(1);
    assert!(generate_maze(&mut generator, 1, 1).is_none());
    assert_eq!(test_all_coordinates_have_fields(seeded(1), 1, 1), Verdict::Discarded);
    assert_eq!(test_route_from_start_to_goal_exists(seeded(1), 1, 1), Verdict::Discarded);
    assert_eq!(test_all_fields_connected(seeded(1), 1, 1), Verdict::Discarded);
    assert_eq!(test_generation_is_deterministic(seeded(1), seeded(1), 1, 1), Verdict::Discarded);
}

#[test]
fn a_maze_for_every_size_with_two_cells_or_more() {
    let mut generator = seeded(3);
    for (width, height) in [(2, 1), (1, 2), (2, 2), (7, 3), (1, 9)] {
        let maze = generate_maze(&mut generator, width, height);
        assert!(maze.is_some());
        assert_eq!(maze.unwrap().size, (width, height));
    }
}

#[test]
fn five_by_five_with_seed_42() {
    let first = seeded(42).generate(5, 5);
    let second = seeded(42).generate(5, 5);
    assert!(first == second);
    assert_eq!(first.start, second.start);
    assert_eq!(first.goal, second.goal);
    for x in 0..5 {
        for y in 0..5 {
            let c = Coordinates::new(x, y);
            assert_eq!(
                first.get_field(&c).unwrap().passages,
                second.get_field(&c).unwrap().passages
            );
        }
    }
    assert_ne!(first.start, first.goal);
    let (start, goal) = (first.start, first.goal);
    let graph = MazeGraph::from(first);
    assert!(graph.has_path_connecting(start, goal));
    assert!(graph.has_path_connecting(goal, start));
    assert_eq!(graph.connected_components(), 1);
    assert_eq!(test_generation_is_deterministic(seeded(42), seeded(42), 5, 5), Verdict::Passed);
    assert_eq!(test_route_from_start_to_goal_exists(seeded(42), 5, 5), Verdict::Passed);
}

#[test]
fn two_by_one_has_its_only_passage() {
    for seed in 0..20 {
        let maze = seeded(seed).generate(2, 1);
        let left = maze.get_field(&Coordinates::new(0, 0)).unwrap();
        let right = maze.get_field(&Coordinates::new(1, 0)).unwrap();
        assert_eq!(left.passages, vec![Direction::East]);
        assert_eq!(right.passages, vec![Direction::West]);
        let graph = MazeGraph::from(maze);
        assert!(graph.contains_edge(Coordinates::new(0, 0), Coordinates::new(1, 0)));
        assert_eq!(graph.connected_components(), 1);
    }
}

#[test]
fn generated_mazes_cover_their_size() {
    for seed in 0..10 {
        assert_eq!(test_all_coordinates_have_fields(seeded(seed), 6, 4), Verdict::Passed);
    }
    assert_eq!(test_all_coordinates_have_fields(seeded(0), 0, 4), Verdict::Discarded);
    assert_eq!(test_all_coordinates_have_fields(seeded(0), 4, -4), Verdict::Discarded);
    assert_eq!(test_all_coordinates_have_fields(Wall::new(None), 3, 3), Verdict::Passed);
}

#[test]
fn generated_mazes_have_a_route() {
    for seed in 0..10 {
        assert_eq!(test_route_from_start_to_goal_exists(seeded(seed), 6, 4), Verdict::Passed);
    }
    assert_eq!(test_route_from_start_to_goal_exists(seeded(0), -6, 4), Verdict::Discarded);
}

#[test]
fn generated_mazes_are_connected() {
    for seed in 0..10 {
        assert_eq!(test_all_fields_connected(seeded(seed), 6, 4), Verdict::Passed);
        assert_eq!(test_all_fields_connected(seeded(seed), 1, 5), Verdict::Passed);
    }
    assert_eq!(test_all_fields_connected(seeded(0), 6, 0), Verdict::Discarded);
}

#[test]
fn generated_mazes_depend_on_the_seed_alone() {
    for seed in 0..10 {
        assert_eq!(
            test_generation_is_deterministic(seeded(seed), seeded(seed), 8, 8),
            Verdict::Passed
        );
    }
    assert_eq!(test_generation_is_deterministic(seeded(0), seeded(0), 0, 8), Verdict::Discarded);
}

#[test]
fn passages_of_generated_mazes_join_neighbours() {
    let maze = seeded(11).generate(6, 5);
    for x in 0..6 {
        for y in 0..5 {
            let here = Coordinates::new(x, y);
            let field = maze.get_field(&here).unwrap();
            for direction in Direction::all() {
                let there = here.next(&direction);
                if field.has_passage(&direction) {
                    assert_eq!(here.manhattan_distance(&there), 1);
                    assert!(maze.are_coordinates_inside(&there));
                    let back = maze.get_field(&there).unwrap();
                    assert_eq!(back.passages.iter().filter(|d| there.next(d) == here).count(), 1);
                }
            }
        }
    }
}

#[test]
fn a_maze_without_passages_fails_the_checks() {
    assert_eq!(test_all_fields_connected(Wall::new(None), 3, 3), Verdict::Failed);
    assert_eq!(test_route_from_start_to_goal_exists(Wall::new(None), 3, 3), Verdict::Failed);
    let maze = Wall::new(None).generate(3, 3);
    assert!(all_coordinates_have_fields(&maze));
    assert!(!all_fields_connected(maze));
    assert!(!route_from_start_to_goal_exists(Wall::new(None).generate(3, 3)));
}

#[test]
fn a_maze_with_start_on_goal_fails_the_route_check() {
    assert_eq!(test_route_from_start_to_goal_exists(SameSpot::new(None), 3, 3), Verdict::Failed);
    assert_eq!(test_all_fields_connected(SameSpot::new(None), 3, 3), Verdict::Passed);
    assert!(!route_from_start_to_goal_exists(SameSpot::new(None).generate(2, 2)));
}

#[test]
fn two_components_fail_the_connectivity_check() {
    let mut maze = Maze::new(4, 1, Coordinates::new(0, 0), Coordinates::new(3, 0));
    maze.open_passage(&Coordinates::new(0, 0), &Direction::East);
    maze.open_passage(&Coordinates::new(2, 0), &Direction::East);
    assert!(!all_fields_connected(maze));
    let mut maze = Maze::new(4, 1, Coordinates::new(0, 0), Coordinates::new(3, 0));
    maze.open_passage(&Coordinates::new(0, 0), &Direction::East);
    maze.open_passage(&Coordinates::new(2, 0), &Direction::East);
    assert!(!route_from_start_to_goal_exists(maze));
    let mut maze = Maze::new(4, 1, Coordinates::new(0, 0), Coordinates::new(3, 0));
    maze.open_passage(&Coordinates::new(0, 0), &Direction::East);
    maze.open_passage(&Coordinates::new(1, 0), &Direction::East);
    maze.open_passage(&Coordinates::new(2, 0), &Direction::East);
    assert!(route_from_start_to_goal_exists(maze));
}

#[test]
fn generators_that_differ_fail_the_determinism_check() {
    let first = Counter::new(None);
    let mut second = Counter::new(None);
    let _ = second.generate(4, 4);
    assert_eq!(test_generation_is_deterministic(first, second, 4, 4), Verdict::Failed);
    assert_eq!(
        test_generation_is_deterministic(Counter::new(None), Counter::new(None), 4, 4),
        Verdict::Passed
    );
}

#[test]
fn other_seeds_give_other_mazes() {
    let reference = seeded(0).generate(10, 10);
    let mut others = 0;
    for seed in 1..20 {
        if seeded(seed).generate(10, 10) != reference {
            others += 1;
        }
    }
    assert!(others > 0);
}

#[test]
fn a_cell_that_is_cut_off_fails_the_connectivity_check() {
    let mut maze = Maze::new(3, 1, Coordinates::new(0, 0), Coordinates::new(2, 0));
    maze.open_passage(&Coordinates::new(0, 0), &Direction::East);
    assert!(!all_fields_connected(maze));
    let mut maze = Maze::new(3, 1, Coordinates::new(0, 0), Coordinates::new(2, 0));
    maze.open_passage(&Coordinates::new(0, 0), &Direction::East);
    maze.open_passage(&Coordinates::new(1, 0), &Direction::East);
    assert!(all_fields_connected(maze));
}

#[test]
fn cells_without_passages_fail_the_connectivity_check() {
    assert!(!all_fields_connected(Maze::new(3, 2, Coordinates::new(0, 0), Coordinates::new(2, 1))));
    assert!(!all_fields_connected(Maze::new(2, 1, Coordinates::new(0, 0), Coordinates::new(1, 0))));
    assert!(!all_fields_connected(Maze::new(0, 0, Coordinates::new(0, 0), Coordinates::new(0, 0))));
}

#[test]
fn a_single_cell_is_one_component() {
    assert!(all_fields_connected(Maze::new(1, 1, Coordinates::new(0, 0), Coordinates::new(0, 0))));
}

#[test]
fn padding_keeps_the_bytes_and_adds_sixteen_zeros() {
    let bytes: [u8; 16] = [1, 2, 3, 4, 5, 6, 7, 8, 9, 10, 11, 12, 13, 14, 15, 16];
    let seed = pad_seed(bytes);
    assert_eq!(seed[..16], bytes);
    assert_eq!(seed[16..], [0u8; 16]);
    assert_eq!(pad_seed([0xff; 16])[15], 0xff);
    assert_eq!(pad_seed([0xff; 16])[16], 0);
    assert_eq!(pad_seed([0; 16]), [0u8; 32]);
}

#[test]
fn seed_is_the_padded_number() {
    let number: u128 = 0xdead_beef_0000_0000_0000_0000_0000_0042;
    assert_eq!(convert_seed(number), pad_seed(number.to_ne_bytes()));
}
