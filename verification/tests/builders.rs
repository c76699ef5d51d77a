use receding_horizon::matrix::Matrix;
use receding_horizon::model::{CmpSense, Domain, Error, Series};
use receding_horizon::mpc::SolveStatus;
use receding_horizon::queens::{n_queen_model, n_queen_solution};
use receding_horizon::scalar::{Scalar, SCALE};
use receding_horizon::sudoku::{decode_solution, parse_grid, sudoku_model};

#[test]
fn n_queen_model_counts() {
    let m = n_queen_model(8);
    assert_eq!(m.vars.len(), 64);
    // 8 rows + 8 columns + 7 + 6 + 7 + 6 diagonals
    assert_eq!(m.constrs.len(), 42);
    assert!(m.objective.is_none());
    assert!(m
        .vars
        .iter()
        .all(|v| matches!(v.domain, Domain::Binary) && matches!(v.name.series, Series::Cell)));
}

#[test]
fn n_queen_model_families() {
    let n = 8usize;
    let m = n_queen_model(n);
    // row 0: cells (0, 0) .. (0, 7) sum to exactly one
    let row0 = &m.constrs[0];
    assert!(matches!(row0.sense, CmpSense::Equal));
    assert_eq!(row0.rhs.raw, SCALE);
    let vars: Vec<usize> = row0.terms.iter().map(|t| t.var).collect();
    assert_eq!(vars, (0..8).collect::<Vec<_>>());
    // column 2: cells (0, 2), (1, 2), ..
    let col2 = &m.constrs[n + 2];
    let vars: Vec<usize> = col2.terms.iter().map(|t| t.var).collect();
    assert_eq!(vars, (0..8).map(|r| r * n + 2).collect::<Vec<_>>());
    // first down-right diagonal: (0,0), (1,1), .. at most one
    let d0 = &m.constrs[2 * n];
    assert!(matches!(d0.sense, CmpSense::LessEq));
    let vars: Vec<usize> = d0.terms.iter().map(|t| t.var).collect();
    assert_eq!(vars, (0..8).map(|i| i * n + i).collect::<Vec<_>>());
    // up-right diagonal through (1, 0): cells (1, 0) and (0, 1)
    let up1 = &m.constrs[3 * n - 1 + (n - 2)];
    let vars: Vec<usize> = up1.terms.iter().map(|t| t.var).collect();
    assert_eq!(vars, vec![n, 1]);
    // variable names are the board coordinates
    assert_eq!(m.vars[8 * 3 + 5].name.i, 3);
    assert_eq!(m.vars[8 * 3 + 5].name.j, 5);
}

#[test]
fn n_queen_model_smallest_board() {
    let m = n_queen_model(1);
    assert_eq!(m.vars.len(), 1);
    assert_eq!(m.constrs.len(), 2);
}

#[test]
fn n_queen_solution_statuses() {
    let values = vec![Scalar::new(0); 4];
    let ok = n_queen_solution(2, SolveStatus::Optimal, values.clone()).unwrap();
    assert_eq!(ok.rows, 2);
    assert_eq!(ok.cols, 2);
    assert!(matches!(
        n_queen_solution(2, SolveStatus::Optimal, vec![Scalar::new(0); 3]),
        Err(Error::ShapeMismatch)
    ));
    assert!(matches!(
        n_queen_solution(2, SolveStatus::Infeasible, values.clone()),
        Err(Error::Infeasible)
    ));
    assert!(matches!(
        n_queen_solution(2, SolveStatus::Other, values),
        Err(Error::SolveFailed)
    ));
}

#[test]
fn matrix_reshape_and_access() {
    let data: Vec<Scalar> = (0..6).map(|i| Scalar::new(i)).collect();
    let m = Matrix::from_vec(2, 3, data).unwrap();
    assert_eq!(m.at(0, 0).raw, 0);
    assert_eq!(m.at(1, 2).raw, 5);
    assert!(matches!(
        Matrix::from_vec(2, 2, vec![Scalar::new(0); 6]),
        Err(Error::ShapeMismatch)
    ));
}

#[test]
fn sudoku_model_counts_and_families() {
    let m = sudoku_model(&Vec::new());
    assert_eq!(m.vars.len(), 729);
    assert_eq!(m.constrs.len(), 324);
    assert!(m.objective.is_none());
    assert!(m.vars.iter().all(|v| matches!(v.domain, Domain::Binary)));
    // the cell constraint of cell (1, 2): variables 1*81 + 2*9 + v
    let c = &m.constrs[1 * 9 + 2];
    let vars: Vec<usize> = c.terms.iter().map(|t| t.var).collect();
    assert_eq!(vars, (0..9).map(|v| 81 + 18 + v).collect::<Vec<_>>());
    // the row constraint for row 1, value 2: variables 1*81 + j*9 + 2
    let c = &m.constrs[81 + 9 + 2];
    let vars: Vec<usize> = c.terms.iter().map(|t| t.var).collect();
    assert_eq!(vars, (0..9).map(|j| 81 + j * 9 + 2).collect::<Vec<_>>());
    // the column constraint for column 1, value 2
    let c = &m.constrs[162 + 9 + 2];
    let vars: Vec<usize> = c.terms.iter().map(|t| t.var).collect();
    assert_eq!(vars, (0..9).map(|i| i * 81 + 9 + 2).collect::<Vec<_>>());
    // the subgrid constraint for block (1, 1), value 0: rows 3..6, cols 3..6
    let c = &m.constrs[243 + 27 + 9];
    let vars: Vec<usize> = c.terms.iter().map(|t| t.var).collect();
    let expected: Vec<usize> = (3..6)
        .flat_map(|i| (3..6).map(move |j| i * 81 + j * 9))
        .collect();
    assert_eq!(vars, expected);
}

#[test]
fn sudoku_given_cells_are_pinned() {
    // cell (0, 0) holds 5, cell (0, 2) holds 1
    let grid = vec![5u8, 0, 1];
    let m = sudoku_model(&grid);
    for t in 0..729 {
        let expect_pinned = t == 4 || t == 18;
        let pinned = matches!(m.vars[t].domain, Domain::BinaryPinnedOne);
        assert_eq!(pinned, expect_pinned, "variable {}", t);
    }
}

#[test]
fn parse_grid_reads_digits_and_skips_layout() {
    let text = b"53.\n.7.\n".to_vec();
    let cells = parse_grid(&text);
    assert_eq!(cells, vec![5, 3, 0, 0, 7, 0]);
}

#[test]
fn decode_solution_folds_digits() {
    let mut values = vec![Scalar::new(0); 729];
    // cell 0 takes value 5 (index 4), cell 80 takes value 9 (index 8)
    values[4] = Scalar::new(SCALE);
    values[80 * 9 + 8] = Scalar::new(SCALE);
    let digits = decode_solution(&values).unwrap();
    assert_eq!(digits.len(), 81);
    assert_eq!(digits[0], 5);
    assert_eq!(digits[1], 0);
    assert_eq!(digits[80], 9);
    assert!(matches!(
        decode_solution(&vec![Scalar::new(0); 10]),
        Err(Error::InconsistentDims)
    ));
}
