use gep2::codons::Codon;
use gep2::data_table::DataTable;
use gep2::delay_line::DelayLine;
use gep2::feedback::Feedback;
use gep2::functions::{apply_op, fregistry, Function, FN_NUM};
use gep2::fx::FX_SCALE;
use gep2::linking_function::LinkingFunction;
use gep2::state_functions::{sfregistry, StateFunction, SFN_NUM};
use gep2::statistics::Statistics;
use gep2::terminal::Terminal;

const S: i64 = FX_SCALE;

#[test]
fn registry_length_test() {
    assert_eq!(fregistry().len(), FN_NUM);
}

#[test]
fn registry_mi_test() {
    let reg = fregistry();
    assert_eq!(apply_op(reg[0].op, S, -S), -S);
}

#[test]
fn registry_ne_test() {
    let reg = fregistry();
    assert_eq!(apply_op(reg[FN_NUM - 1].op, S, S), -S);
}

#[test]
fn registry_av_test() {
    let reg = fregistry();
    assert_eq!(apply_op(reg[FN_NUM - 2].op, S, -S), 0);
}

#[test]
fn sfregistry_length_test() {
    assert_eq!(sfregistry().len(), SFN_NUM);
}

#[test]
fn terminal_evaluate_test() {
    let mut t = Codon::Terminal(Terminal::new(1));
    let dl = DelayLine::new(3);
    assert_eq!(t.evaluate(100 * S, 100 * S, &vec![S, -S, 0], &dl), -S);
}

#[test]
fn function_evaluate_test() {
    let reg = fregistry();
    let mut f = Codon::Function(Function::new(reg[0]));
    let dl = DelayLine::new(3);
    assert_eq!(f.evaluate(-S, S, &vec![-S, S, 0], &dl), -S);
}

#[test]
fn delay_evaluate_test() {
    let sreg = sfregistry();
    let mut f = Codon::StateFunction(StateFunction::new(sreg[0]));
    let dl = DelayLine::new(3);
    assert_eq!(f.evaluate(-S, S, &vec![-S, S, 0], &dl), 0);
    assert_eq!(f.evaluate(S, S, &vec![-S, S, 0], &dl), -S);
}

#[test]
fn push_test() {
    let mut dl = DelayLine::new(4);
    dl.push(1 * S);
    dl.push(2 * S);
    dl.push(3 * S);
    dl.push(4 * S);
    dl.push(5 * S);
    assert_eq!(dl.get_shifted_back(0), 5 * S);
    assert_eq!(dl.get_shifted_back(1), 4 * S);
    assert_eq!(dl.get_shifted_back(2), 3 * S);
    assert_eq!(dl.get_shifted_back(3), 2 * S);
}

#[test]
fn feedback_test() {
    let mut dl = DelayLine::new(3);
    let f = Feedback::new(1);
    dl.push(0);
    dl.push(1 * S);
    dl.push(2 * S);
    assert_eq!(f.eval(&dl), S);
}

#[test]
fn delay_test() {
    let sreg = sfregistry();
    let mut d = StateFunction::new(sreg[0]);
    let x1 = d.eval(S);
    let x2 = d.eval(0);
    assert_eq!(0, x1);
    assert_eq!(S, x2);
}

#[test]
fn ma2_test() {
    let sreg = sfregistry();
    let mut d = StateFunction::new(sreg[1]);
    let x1 = d.eval(S);
    let x2 = d.eval(S);
    let x3 = d.eval(-S);
    assert_eq!(S / 2, x1);
    assert_eq!(S, x2);
    assert_eq!(0, x3);
}

#[test]
fn diff_test() {
    let sreg = sfregistry();
    let mut d = StateFunction::new(sreg[2]);
    let x1 = d.eval(S);
    let x2 = d.eval(S);
    let x3 = d.eval(-S);
    assert_eq!(S, x1);
    assert_eq!(0, x2);
    assert_eq!(-S, x3);
}

#[test]
fn big_neg_test() {
    let args = vec![-100 * S];
    let t = Terminal::new(0);
    let v = t.eval(&args);
    assert_eq!(-S, v);
}

#[test]
fn big_pos_test() {
    let args = vec![-100 * S, 100 * S];
    let t = Terminal::new(1);
    let v = t.eval(&args);
    assert_eq!(S, v);
}

#[test]
fn in_range_test() {
    let args = vec![-100 * S, 100 * S, S / 2];
    let t = Terminal::new(2);
    let v = t.eval(&args);
    assert_eq!(S / 2, v);
}

#[test]
fn linking_majority_test() {
    let lf = LinkingFunction::new();
    assert_eq!(lf.evaluate(vec![S, -S, S]), S);
    assert_eq!(lf.evaluate(vec![S, -S]), 0);
    assert_eq!(lf.evaluate(vec![-S, -S, S]), -S);
    assert_eq!(lf.symbol, "Maj");
}

#[test]
fn data_table_rejects_empty() {
    assert!(DataTable::new(vec![], vec![]).is_none());
}

#[test]
fn data_table_rejects_empty_row() {
    assert!(DataTable::new(vec![vec![]], vec![0]).is_none());
}

#[test]
fn data_table_rejects_length_mismatch() {
    assert!(DataTable::new(vec![vec![S]], vec![S, S]).is_none());
}

#[test]
fn data_table_rejects_ragged_rows() {
    assert!(DataTable::new(vec![vec![S], vec![S, S]], vec![S, S]).is_none());
}

#[test]
fn data_table_rejects_oversize_return() {
    let too_big = gep2::fx::FX_MAX_ABS + 1;
    assert!(DataTable::new(vec![vec![S]], vec![too_big]).is_none());
}

#[test]
fn data_table_accepts_valid() {
    let dt = DataTable::new(vec![vec![S, 0], vec![-S, S]], vec![S, -S]).unwrap();
    assert_eq!(dt.rows, 2);
    assert_eq!(dt.cols, 2);
    let (row, target) = dt.get_data_row(1).unwrap();
    assert_eq!(row, &vec![-S, S]);
    assert_eq!(target, -S);
    assert!(dt.get_data_row(2).is_none());
}

#[test]
fn statistics_exact_test() {
    // steps: +S, +2S, -S
    let equity = vec![(S as i128), (3 * S) as i128, (2 * S) as i128];
    let st = Statistics::new(&equity);
    assert_eq!(st.count, 3);
    assert_eq!(st.win, (3 * S) as i128);
    assert_eq!(st.loss, S as i128);
    assert_eq!(st.result, (2 * S) as i128);
    assert_eq!(st.profit_factor, (3 * S) as i128);
    assert_eq!(st.percent_profitable, 66_666_666);
    assert_eq!(st.avg_win, ((3 * S) as i128) * (S as i128) / 2);
    assert_eq!(st.avg_loss, (S as i128) * (S as i128));
}

#[test]
fn statistics_no_loss_test() {
    let equity = vec![(S as i128), (2 * S) as i128];
    let st = Statistics::new(&equity);
    assert_eq!(st.loss, 0);
    assert_eq!(st.profit_factor, 1_000_000i128 * (S as i128));
    assert_eq!(st.percent_profitable, 100 * (S as i128));
}
