use keirsey::{classify, Answer, Classification, Score, ScoringGrid};

#[test]
fn test_score() {
    let score = Score::new(Answer::A);
    assert_eq!(score.value, Answer::A);
}

#[test]
fn test_scoring_grid() {
    let mut scoring_grid = ScoringGrid::new();
    scoring_grid.add_score(Score::new(Answer::A));
    scoring_grid.add_score(Score::new(Answer::B));
    scoring_grid.add_score(Score::new(Answer::B));
    scoring_grid.add_score(Score::new(Answer::A));
    scoring_grid.add_score(Score::new(Answer::A));
    scoring_grid.add_score(Score::new(Answer::A));
    scoring_grid.add_score(Score::new(Answer::A));
    scoring_grid.add_score(Score::new(Answer::B));

    // On the eighth answer a second batch is opened.
    assert_eq!(scoring_grid.batches().len(), 2);
}

#[test]
fn test_talley() {
    let mut grid = ScoringGrid::new();
    for _ in 0..70 {
        grid.add_score(Score::new(Answer::A));
    }
    grid.tally();
    assert_eq!(
        grid.tally(),
        vec![(10, 0), (10, 0), (10, 0), (20, 0), (10, 0), (10, 0), (20, 0), (10, 0), (10, 0), (20, 0)]
    );
}

#[test]
fn test_temperaments() {
    let mut grids: Vec<ScoringGrid> = vec![];
    for i in 0..16 {
        let mut grid = ScoringGrid::new();
        for j in 0..70i32 {
            let pattern_variable = match i {
                0 => false,
                1 => j % 7 == 0,
                2 => (j - 1) % 7 == 0 || j == 2,
                3 => (j - 2) % 7 == 0 && j != 2 || (j - 3) % 7 == 0 || j == 4,
                4 => (j - 3) % 7 == 0 && j == 4 || (j - 5) % 7 == 0 || j == 6,
                5 => j % 7 == 0 || (j - 1) % 7 == 0 || j == 2,
                6 => j % 7 == 0 || (j - 2) % 7 == 0 && j != 2 || (j - 3) % 7 == 0 || j == 4,
                7 => j % 7 == 0 || (j - 5) % 7 == 0 || j == 6,
                8 => (j - 1) % 7 == 0 || j == 2 || (j - 3) % 7 == 0 || j == 4,
                9 => (j - 3) % 7 == 0 || j == 4 || (j - 5) % 7 == 0 || j == 6,
                10 => (j - 1) % 7 == 0 || j == 2 || (j - 5) % 7 == 0 || j == 6,
                11 => j % 7 == 0 || (j - 1) % 7 == 0 || j == 2 || (j - 3) % 7 == 0 || j == 4,
                12 => j % 7 == 0 || (j - 3) % 7 == 0 || j == 4 || (j - 5) % 7 == 0 || j == 6,
                13 => j % 7 == 0 || (j - 1) % 7 == 0 || j == 2 || (j - 5) % 7 == 0 || j == 6,
                14 => {
                    (j - 1) % 7 == 0
                        || j == 2
                        || (j - 3) % 7 == 0
                        || j == 4
                        || (j - 5) % 7 == 0
                        || j == 6
                }
                _ => true,
            };
            let score = if pattern_variable {
                Score::new(Answer::B)
            } else {
                Score::new(Answer::A)
            };
            grid.add_score(score);
        }
        grids.push(grid);
    }

    let answer_array = [
        "ESTJ", "ISTJ", "ENTJ", "ESFJ", "ESTP", "INTJ", "ISFJ", "ISTP", "ENFJ", "ESFP", "ENTP",
        "INFJ", "ISFP", "INTP", "ENFP", "INFP",
    ];

    for (i, grid) in grids.iter().enumerate() {
        assert_eq!(grid.get_temperament(), answer_array[i], "{:?}", grid.batches());
    }
}

#[test]
fn test_temperament_type() {
    let mut possible_temperaments = vec![];

    let possible = [["E", "I", "X"], ["S", "N", "X"], ["F", "T", "X"], ["J", "P", "X"]];

    for &first_letter in possible[0].iter() {
        for &second_letter in possible[1].iter() {
            for &third_letter in possible[2].iter() {
                for &fourth_letter in possible[3].iter() {
                    let combination =
                        format!("{}{}{}{}", first_letter, second_letter, third_letter, fourth_letter);
                    possible_temperaments.push(combination);
                }
            }
        }
    }

    // Every code without a tie falls into exactly the family that lists it.
    for temperament in possible_temperaments {
        let c = classify(&temperament);
        if !temperament.contains('X') {
            assert!(matches!(c, Classification::Category(_)), "{}", temperament);
        }
        if temperament == "XXXX" {
            assert_eq!(c, Classification::AllTied);
        }
    }
}

#[test]
fn call_teh_avatar() {
    let mut grid = ScoringGrid::new();
    for j in 0..70 {
        if j % 2 == 0 {
            grid.add_score(Score::new(Answer::B));
        } else {
            grid.add_score(Score::new(Answer::A));
        }
    }
    let temp = grid.get_temperament();
    assert_eq!(temp, "XXXX");
    assert_eq!(grid.classification(), Classification::AllTied);
}
