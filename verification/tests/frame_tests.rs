use dragon_game::frame::FrameView;
use dragon_game::rules::ObstacleCell;

fn view(
    dragon_row: usize,
    jumps_used: u8,
    obstacles: Vec<ObstacleCell>,
    score: u32,
    speed_text: &str,
    game_over: bool,
) -> FrameView {
    FrameView { dragon_row, jumps_used, obstacles, score, speed_text: speed_text.to_string(), game_over }
}

#[test]
fn first_frame_of_a_game() {
    let lines = view(15, 0, Vec::new(), 0, "18.0", false).render();
    let expected: Vec<&str> = vec![
        "Side-Scrolling Dragon  |  SPACE: jump  Q: quit  R: restart",
        "Score:   0  Jumps Left: 2  Speed: 18.0",
        "+--------------------------------------------------------+",
        "|                                                        |",
        "|                                                        |",
        "|.        .        .        .        .        .        . |",
        "|                                                        |",
        "|    .            .            .            .            |",
        "|                                                        |",
        "|                                                        |",
        "|                                                        |",
        "|                                                        |",
        "|                                                        |",
        "|                                                        |",
        "|                                                        |",
        "|                                                        |",
        "|                                                        |",
        "|        ^                                               |",
        "|       <@>~                                             |",
        "|========================================================|",
        "|========================================================|",
        "+--------------------------------------------------------+",
    ];
    assert_eq!(lines, expected);
}

#[test]
fn frame_with_obstacles_and_game_over() {
    let obstacles = vec![
        ObstacleCell { col: 8, height: 3 },
        ObstacleCell { col: 20, height: 1 },
        ObstacleCell { col: -1, height: 2 },
        ObstacleCell { col: 56, height: 3 },
        ObstacleCell { col: 30, height: 20 },
        ObstacleCell { col: 40, height: 0 },
    ];
    let lines = view(10, 2, obstacles, 7, "21.2", true).render();
    let expected: Vec<&str> = vec![
        "Side-Scrolling Dragon  |  SPACE: jump  Q: quit  R: restart",
        "Score:   7  Jumps Left: 0  Speed: 21.2",
        "+--------------------------------------------------------+",
        "|                              #                         |",
        "|                              #                         |",
        "|.        .        .        .  #     .        .        . |",
        "|                              #                         |",
        "|    .            .            #            .            |",
        "|                              #                         |",
        "|                              #                         |",
        "|                              #                         |",
        "|                              #                         |",
        "|        ^                     #                         |",
        "|       <&>~                   #                         |",
        "|                              #                         |",
        "|                              #                         |",
        "|        #                     #                         |",
        "|        #                     #                         |",
        "|        #           #         #                         |",
        "|========================================================|",
        "|========================================================|",
        "+--------------------------------------------------------+",
        "",
        "Game Over! Press R to play again.",
    ];
    assert_eq!(lines, expected);
}

#[test]
fn dragon_in_top_row_over_an_obstacle() {
    let lines = view(0, 1, vec![ObstacleCell { col: 8, height: 16 }], 123, "", false).render();
    let expected: Vec<&str> = vec![
        "Side-Scrolling Dragon  |  SPACE: jump  Q: quit  R: restart",
        "Score: 123  Jumps Left: 1  Speed:",
        "+--------------------------------------------------------+",
        "|       <@>~                                             |",
        "|        #                                               |",
        "|.       #.        .        .        .        .        . |",
        "|        #                                               |",
        "|    .   #        .            .            .            |",
        "|        #                                               |",
        "|        #                                               |",
        "|        #                                               |",
        "|        #                                               |",
        "|        #                                               |",
        "|        #                                               |",
        "|        #                                               |",
        "|        #                                               |",
        "|        #                                               |",
        "|        #                                               |",
        "|        #                                               |",
        "|========================================================|",
        "|========================================================|",
        "+--------------------------------------------------------+",
    ];
    assert_eq!(lines, expected);
}
