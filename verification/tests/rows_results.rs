use cql_ws::rows::{rows_table, ColType, Value};
use cql_ws::SessionError;

fn push_u16(out: &mut Vec<u8>, x: u16) {
    out.push((x >> 8) as u8);
    out.push(x as u8);
}

fn push_u32(out: &mut Vec<u8>, x: u32) {
    out.push((x >> 24) as u8);
    out.push((x >> 16) as u8);
    out.push((x >> 8) as u8);
    out.push(x as u8);
}

fn push_string(out: &mut Vec<u8>, s: &str) {
    push_u16(out, s.len() as u16);
    out.extend_from_slice(s.as_bytes());
}

fn push_cell(out: &mut Vec<u8>, c: Option<&[u8]>) {
    match c {
        Some(b) => {
            push_u32(out, b.len() as u32);
            out.extend_from_slice(b);
        }
        None => push_u32(out, 0xFFFFFFFF),
    }
}

fn type_id(t: ColType) -> u16 {
    match t {
        ColType::Ascii => 0x01,
        ColType::Bigint => 0x02,
        ColType::Blob => 0x03,
        ColType::Boolean => 0x04,
        ColType::Int => 0x09,
        ColType::Varchar => 0x0D,
    }
}

/// A rows result body with a global table spec.
fn rows_body(cols: &[(&str, ColType)], rows: &[Vec<Option<Vec<u8>>>]) -> Vec<u8> {
    let mut b = Vec::new();
    push_u32(&mut b, 2); // result kind: rows
    push_u32(&mut b, 1); // flags: global table spec
    push_u32(&mut b, cols.len() as u32);
    push_string(&mut b, "ks");
    push_string(&mut b, "t");
    for (name, t) in cols {
        push_string(&mut b, name);
        push_u16(&mut b, type_id(*t));
    }
    push_u32(&mut b, rows.len() as u32);
    for row in rows {
        for cell in row {
            push_cell(&mut b, cell.as_deref());
        }
    }
    b
}

#[test]
fn zero_rows() {
    let body = rows_body(&[("a", ColType::Int), ("b", ColType::Varchar)], &[]);
    let table = rows_table(&body).unwrap();
    assert_eq!(table, Vec::<Vec<Value>>::new());
}

#[test]
fn one_row_one_column() {
    let body = rows_body(&[("a", ColType::Int)], &[vec![Some(vec![0, 0, 0, 42])]]);
    let table = rows_table(&body).unwrap();
    assert_eq!(table, vec![vec![Value::Int(42)]]);
}

#[test]
fn mixed_types_preserve_column_order() {
    let cols = [
        ("i", ColType::Int),
        ("s", ColType::Varchar),
        ("g", ColType::Bigint),
        ("f", ColType::Boolean),
        ("x", ColType::Blob),
    ];
    let row = vec![
        Some(vec![0xFF, 0xFF, 0xFF, 0xFE]),                      // -2
        Some(b"hi".to_vec()),
        Some(vec![0xFF, 0xFF, 0xFF, 0xFF, 0xFF, 0xFF, 0xFF, 0xFD]), // -3
        Some(vec![1]),
        Some(vec![0xDE, 0xAD]),
    ];
    let body = rows_body(&cols, &[row]);
    let table = rows_table(&body).unwrap();
    assert_eq!(
        table,
        vec![vec![
            Value::Int(-2),
            Value::Text(b"hi".to_vec()),
            Value::Bigint(-3),
            Value::Boolean(true),
            Value::Blob(vec![0xDE, 0xAD]),
        ]]
    );
}

#[test]
fn null_cells_decode_as_null() {
    let body = rows_body(
        &[("a", ColType::Int), ("b", ColType::Varchar)],
        &[vec![None, Some(b"x".to_vec())], vec![Some(vec![0, 0, 0, 1]), None]],
    );
    let table = rows_table(&body).unwrap();
    assert_eq!(
        table,
        vec![
            vec![Value::Null, Value::Text(b"x".to_vec())],
            vec![Value::Int(1), Value::Null],
        ]
    );
}

#[test]
fn per_column_table_spec() {
    // flags 0: each column carries its own keyspace and table names.
    let mut b = Vec::new();
    push_u32(&mut b, 2);
    push_u32(&mut b, 0);
    push_u32(&mut b, 1);
    push_string(&mut b, "ks");
    push_string(&mut b, "t");
    push_string(&mut b, "a");
    push_u16(&mut b, 0x09);
    push_u32(&mut b, 1);
    push_cell(&mut b, Some(&[0, 0, 0, 9]));
    let table = rows_table(&b).unwrap();
    assert_eq!(table, vec![vec![Value::Int(9)]]);
}

#[test]
fn wrong_result_kind_is_violation() {
    let mut body = rows_body(&[("a", ColType::Int)], &[]);
    body[3] = 1; // result kind: void
    assert_eq!(rows_table(&body), Err(SessionError::ProtocolViolation));
}

#[test]
fn paging_flag_is_unsupported() {
    let mut body = rows_body(&[("a", ColType::Int)], &[]);
    body[7] = 3; // flags: global table spec + has more pages
    assert_eq!(rows_table(&body), Err(SessionError::Unsupported));
}

#[test]
fn unknown_column_type_is_unsupported() {
    let mut b = Vec::new();
    push_u32(&mut b, 2);
    push_u32(&mut b, 1);
    push_u32(&mut b, 1);
    push_string(&mut b, "ks");
    push_string(&mut b, "t");
    push_string(&mut b, "u");
    push_u16(&mut b, 0x000C); // uuid: recognized by the protocol, not modelled
    push_u32(&mut b, 0);
    assert_eq!(rows_table(&b), Err(SessionError::Unsupported));
}

#[test]
fn truncated_body_is_violation() {
    let mut body = rows_body(&[("a", ColType::Int)], &[vec![Some(vec![0, 0, 0, 1])]]);
    body.pop();
    assert_eq!(rows_table(&body), Err(SessionError::ProtocolViolation));
}

#[test]
fn trailing_bytes_are_violation() {
    let mut body = rows_body(&[("a", ColType::Int)], &[]);
    body.push(0);
    assert_eq!(rows_table(&body), Err(SessionError::ProtocolViolation));
}

#[test]
fn int_cell_of_wrong_width_is_violation() {
    let body = rows_body(&[("a", ColType::Int)], &[vec![Some(vec![0, 0, 1])]]);
    assert_eq!(rows_table(&body), Err(SessionError::ProtocolViolation));
}
