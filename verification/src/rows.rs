//! The rows result of a query: column metadata, raw cells, and typed values.
//!
//! A rows result body is the result kind, the metadata flags, the column
//! count, an optional global table spec, one column spec per column (name and
//! type), the row count, and one length-prefixed cell per row and column.
//! Only flag values 0 (per-column table spec) and 1 (global table spec) and
//! the scalar column types below are modelled; other recognized wire content
//! is reported as unsupported rather than as a violation.

use vstd::prelude::*;

use crate::wire::{be16, be32, read_u16_be, read_u32_be};
use crate::SessionError;

verus! {

/// The column types this client decodes.
#[derive(Clone, Copy, Debug, PartialEq, Eq, Structural)]
pub enum ColType {
    Ascii,
    Bigint,
    Blob,
    Boolean,
    Int,
    Varchar,
}

/// One column of the response metadata: its name (UTF-8 bytes) and type.
#[derive(Clone, Debug, PartialEq, Eq)]
pub struct ColSpec {
    pub name: Vec<u8>,
    pub ctype: ColType,
}

/// Mathematical model of a column spec.
#[verifier::ext_equal]
pub ghost struct ColSpecModel {
    pub name: Seq<u8>,
    pub ctype: ColType,
}

impl View for ColSpec {
    type V = ColSpecModel;

    open spec fn view(&self) -> ColSpecModel {
        ColSpecModel { name: self.name@, ctype: self.ctype }
    }
}

impl DeepView for ColSpec {
    type V = ColSpecModel;

    open spec fn deep_view(&self) -> ColSpecModel {
        self.view()
    }
}

/// One raw cell of a row: absent (null) or its bytes.
#[derive(Clone, Debug, PartialEq, Eq)]
pub enum RawCell {
    Absent,
    Bytes(Vec<u8>),
}

impl View for RawCell {
    type V = Option<Seq<u8>>;

    open spec fn view(&self) -> Option<Seq<u8>> {
        match self {
            RawCell::Absent => None,
            RawCell::Bytes(b) => Some(b@),
        }
    }
}

impl DeepView for RawCell {
    type V = Option<Seq<u8>>;

    open spec fn deep_view(&self) -> Option<Seq<u8>> {
        self.view()
    }
}

/// A decoded cell value. Text holds the UTF-8 bytes of the string.
#[derive(Clone, Debug, PartialEq, Eq)]
pub enum Value {
    Null,
    Int(i32),
    Bigint(i64),
    Boolean(bool),
    Text(Vec<u8>),
    Blob(Vec<u8>),
}

/// Mathematical model of a decoded cell value.
#[verifier::ext_equal]
pub ghost enum ValueModel {
    Null,
    Int(int),
    Bigint(int),
    Boolean(bool),
    Text(Seq<u8>),
    Blob(Seq<u8>),
}

impl View for Value {
    type V = ValueModel;

    open spec fn view(&self) -> ValueModel {
        match self {
            Value::Null => ValueModel::Null,
            Value::Int(x) => ValueModel::Int(*x as int),
            Value::Bigint(x) => ValueModel::Bigint(*x as int),
            Value::Boolean(b) => ValueModel::Boolean(*b),
            Value::Text(b) => ValueModel::Text(b@),
            Value::Blob(b) => ValueModel::Blob(b@),
        }
    }
}

impl DeepView for Value {
    type V = ValueModel;

    open spec fn deep_view(&self) -> ValueModel {
        self.view()
    }
}

// ---------------------------------------------------------------------------
// Field readers over a byte string and a position.
// ---------------------------------------------------------------------------

/// Reads a two-byte big-endian field.
pub open spec fn take_u16(d: Seq<u8>, p: int) -> Result<(nat, int), SessionError> {
    if 0 <= p && p + 2 <= d.len() {
        Ok((be16(d[p], d[p + 1]), p + 2))
    } else {
        Err(SessionError::ProtocolViolation)
    }
}

/// Reads a four-byte big-endian field.
pub open spec fn take_u32(d: Seq<u8>, p: int) -> Result<(nat, int), SessionError> {
    if 0 <= p && p + 4 <= d.len() {
        Ok((be32(d[p], d[p + 1], d[p + 2], d[p + 3]), p + 4))
    } else {
        Err(SessionError::ProtocolViolation)
    }
}

/// Reads a length-prefixed string: a two-byte length, then that many bytes.
pub open spec fn take_string(d: Seq<u8>, p: int) -> Result<(Seq<u8>, int), SessionError> {
    match take_u16(d, p) {
        Ok((n, q)) => if q + n <= d.len() {
            Ok((d.subrange(q, q + n), q + n))
        } else {
            Err(SessionError::ProtocolViolation)
        },
        Err(e) => Err(e),
    }
}

/// Skips a table spec: a keyspace string and a table string.
pub open spec fn take_two_strings(d: Seq<u8>, p: int) -> Result<int, SessionError> {
    match take_string(d, p) {
        Ok((ks, q)) => match take_string(d, q) {
            Ok((tbl, r)) => Ok(r),
            Err(e) => Err(e),
        },
        Err(e) => Err(e),
    }
}

/// The column type a wire type id stands for, if this client decodes it.
pub open spec fn coltype_of_id(id: nat) -> Option<ColType> {
    if id == 0x01 {
        Some(ColType::Ascii)
    } else if id == 0x02 {
        Some(ColType::Bigint)
    } else if id == 0x03 {
        Some(ColType::Blob)
    } else if id == 0x04 {
        Some(ColType::Boolean)
    } else if id == 0x09 {
        Some(ColType::Int)
    } else if id == 0x0D {
        Some(ColType::Varchar)
    } else {
        None
    }
}

/// Reads one column spec; with `per_col_table` a table spec stands before the
/// name. A type id outside the modelled scalars is unsupported.
pub open spec fn take_colspec(d: Seq<u8>, p: int, per_col_table: bool) -> Result<
    (ColSpecModel, int),
    SessionError,
> {
    let start = if per_col_table {
        take_two_strings(d, p)
    } else {
        Ok(p)
    };
    match start {
        Ok(p1) => match take_string(d, p1) {
            Ok((name, p2)) => match take_u16(d, p2) {
                Ok((id, p3)) => match coltype_of_id(id) {
                    Some(t) => Ok((ColSpecModel { name, ctype: t }, p3)),
                    None => Err(SessionError::Unsupported),
                },
                Err(e) => Err(e),
            },
            Err(e) => Err(e),
        },
        Err(e) => Err(e),
    }
}

/// Reads `n` column specs in order.
pub open spec fn take_colspecs(d: Seq<u8>, p: int, n: nat, per_col_table: bool) -> Result<
    (Seq<ColSpecModel>, int),
    SessionError,
>
    decreases n,
{
    if n == 0 {
        Ok((Seq::empty(), p))
    } else {
        match take_colspec(d, p, per_col_table) {
            Ok((c, q)) => match take_colspecs(d, q, (n - 1) as nat, per_col_table) {
                Ok((rest, r)) => Ok((seq![c] + rest, r)),
                Err(e) => Err(e),
            },
            Err(e) => Err(e),
        }
    }
}

/// Reads one cell: a four-byte length, then that many bytes; a negative
/// length is a null cell.
pub open spec fn take_cell(d: Seq<u8>, p: int) -> Result<(Option<Seq<u8>>, int), SessionError> {
    match take_u32(d, p) {
        Ok((n, q)) => if n >= 0x80000000 {
            Ok((None, q))
        } else if q + n <= d.len() {
            Ok((Some(d.subrange(q, q + n)), q + n))
        } else {
            Err(SessionError::ProtocolViolation)
        },
        Err(e) => Err(e),
    }
}

/// Reads the `n` remaining cells of a row.
pub open spec fn take_row(d: Seq<u8>, p: int, n: nat) -> Result<
    (Seq<Option<Seq<u8>>>, int),
    SessionError,
>
    decreases n,
{
    if n == 0 {
        Ok((Seq::empty(), p))
    } else {
        match take_cell(d, p) {
            Ok((c, q)) => match take_row(d, q, (n - 1) as nat) {
                Ok((rest, r)) => Ok((seq![c] + rest, r)),
                Err(e) => Err(e),
            },
            Err(e) => Err(e),
        }
    }
}

/// Reads the `n` remaining rows of `ncols` cells each.
pub open spec fn take_rows(d: Seq<u8>, p: int, n: nat, ncols: nat) -> Result<
    (Seq<Seq<Option<Seq<u8>>>>, int),
    SessionError,
>
    decreases n,
{
    if n == 0 {
        Ok((Seq::empty(), p))
    } else {
        match take_row(d, p, ncols) {
            Ok((row, q)) => match take_rows(d, q, (n - 1) as nat, ncols) {
                Ok((rest, r)) => Ok((seq![row] + rest, r)),
                Err(e) => Err(e),
            },
            Err(e) => Err(e),
        }
    }
}

/// What a result body holds when read as a rows result: the column specs and
/// the raw cells. Exactly one rows result must fill the body.
pub open spec fn parse_rows_body_spec(b: Seq<u8>) -> Result<
    (Seq<ColSpecModel>, Seq<Seq<Option<Seq<u8>>>>),
    SessionError,
> {
    match take_u32(b, 0) {
        Ok((kind, p1)) => if kind != 2 {
            Err(SessionError::ProtocolViolation)
        } else {
            match take_u32(b, p1) {
                Ok((flags, p2)) => if !(flags == 0 || flags == 1) {
                    Err(SessionError::Unsupported)
                } else {
                    match take_u32(b, p2) {
                        Ok((ncols, p3)) => if ncols >= 0x80000000 {
                            Err(SessionError::ProtocolViolation)
                        } else {
                            let gstart = if flags == 1 {
                                take_two_strings(b, p3)
                            } else {
                                Ok(p3)
                            };
                            match gstart {
                                Ok(p4) => match take_colspecs(b, p4, ncols, flags == 0) {
                                    Ok((specs, p5)) => match take_u32(b, p5) {
                                        Ok((nrows, p6)) => if nrows >= 0x80000000 {
                                            Err(SessionError::ProtocolViolation)
                                        } else {
                                            match take_rows(b, p6, nrows, ncols) {
                                                Ok((cells, p7)) => if p7 == b.len() {
                                                    Ok((specs, cells))
                                                } else {
                                                    Err(SessionError::ProtocolViolation)
                                                },
                                                Err(e) => Err(e),
                                            }
                                        },
                                        Err(e) => Err(e),
                                    },
                                    Err(e) => Err(e),
                                },
                                Err(e) => Err(e),
                            }
                        },
                        Err(e) => Err(e),
                    }
                },
                Err(e) => Err(e),
            }
        },
        Err(e) => Err(e),
    }
}

// ---------------------------------------------------------------------------
// Typed cell values.
// ---------------------------------------------------------------------------

/// The value of eight big-endian bytes.
pub open spec fn be64(b: Seq<u8>) -> nat {
    be32(b[0], b[1], b[2], b[3]) * 0x100000000 + be32(b[4], b[5], b[6], b[7])
}

/// The signed 32-bit value of an unsigned 32-bit reading.
pub open spec fn i32_of(n: nat) -> int {
    if n >= 0x80000000 {
        n - 0x100000000
    } else {
        n as int
    }
}

/// The signed 64-bit value of an unsigned 64-bit reading.
pub open spec fn i64_of(n: nat) -> int {
    if n >= 0x8000000000000000 {
        n - 0x10000000000000000
    } else {
        n as int
    }
}

/// The typed value of one raw cell under a column type. A null cell is Null
/// for every type; a scalar cell of the wrong width is a violation.
pub open spec fn cell_value(t: ColType, c: Option<Seq<u8>>) -> Result<ValueModel, SessionError> {
    match c {
        None => Ok(ValueModel::Null),
        Some(b) => match t {
            ColType::Int => if b.len() == 4 {
                Ok(ValueModel::Int(i32_of(be32(b[0], b[1], b[2], b[3]))))
            } else {
                Err(SessionError::ProtocolViolation)
            },
            ColType::Bigint => if b.len() == 8 {
                Ok(ValueModel::Bigint(i64_of(be64(b))))
            } else {
                Err(SessionError::ProtocolViolation)
            },
            ColType::Boolean => if b.len() == 1 {
                Ok(ValueModel::Boolean(b[0] != 0))
            } else {
                Err(SessionError::ProtocolViolation)
            },
            ColType::Ascii => Ok(ValueModel::Text(b)),
            ColType::Varchar => Ok(ValueModel::Text(b)),
            ColType::Blob => Ok(ValueModel::Blob(b)),
        },
    }
}

/// Decodes the cells of one row from column `j` on, each with its column's
/// type, in column order.
pub open spec fn decode_row_from(
    specs: Seq<ColSpecModel>,
    row: Seq<Option<Seq<u8>>>,
    j: int,
) -> Result<Seq<ValueModel>, SessionError>
    decreases specs.len() - j,
{
    if 0 <= j < specs.len() && row.len() == specs.len() {
        match cell_value(specs[j].ctype, row[j]) {
            Ok(v) => match decode_row_from(specs, row, j + 1) {
                Ok(rest) => Ok(seq![v] + rest),
                Err(e) => Err(e),
            },
            Err(e) => Err(e),
        }
    } else {
        Ok(Seq::empty())
    }
}

/// Decodes the rows of a table from row `i` on, in row order. A row whose
/// width differs from the metadata is a violation.
pub open spec fn decode_table_from(
    specs: Seq<ColSpecModel>,
    rows: Seq<Seq<Option<Seq<u8>>>>,
    i: int,
) -> Result<Seq<Seq<ValueModel>>, SessionError>
    decreases rows.len() - i,
{
    if 0 <= i < rows.len() {
        if rows[i].len() != specs.len() {
            Err(SessionError::ProtocolViolation)
        } else {
            match decode_row_from(specs, rows[i], 0) {
                Ok(vals) => match decode_table_from(specs, rows, i + 1) {
                    Ok(rest) => Ok(seq![vals] + rest),
                    Err(e) => Err(e),
                },
                Err(e) => Err(e),
            }
        }
    } else {
        Ok(Seq::empty())
    }
}

/// The typed table a rows result body holds.
pub open spec fn rows_table_spec(b: Seq<u8>) -> Result<Seq<Seq<ValueModel>>, SessionError> {
    match parse_rows_body_spec(b) {
        Ok((specs, cells)) => decode_table_from(specs, cells, 0),
        Err(e) => Err(e),
    }
}

// ---------------------------------------------------------------------------
// Exec parsing.
// ---------------------------------------------------------------------------

/// Copies `d[from..to]` into a fresh vector.
pub fn copy_range(d: &[u8], from: usize, to: usize) -> (v: Vec<u8>)
    requires
        from <= to <= d@.len(),
    ensures
        v@ == d@.subrange(from as int, to as int),
{
    let mut v: Vec<u8> = Vec::new();
    let mut i: usize = from;
    while i < to
        invariant
            from <= i <= to <= d@.len(),
            v@ == d@.subrange(from as int, i as int),
        decreases to - i,
    {
        v.push(d[i]);
        assert(v@ =~= d@.subrange(from as int, i + 1 as int));
        i = i + 1;
    }
    v
}

fn rd_u16(d: &[u8], p: usize) -> (r: Result<(u16, usize), SessionError>)
    ensures
        match r {
            Ok((x, q)) => take_u16(d@, p as int) == Ok::<(nat, int), SessionError>(
                (x as nat, q as int),
            ) && q <= d@.len(),
            Err(e) => take_u16(d@, p as int) == Err::<(nat, int), SessionError>(e),
        },
{
    if d.len() < 2 || p > d.len() - 2 {
        return Err(SessionError::ProtocolViolation);
    }
    let x = read_u16_be(d, p);
    Ok((x, p + 2))
}

fn rd_u32(d: &[u8], p: usize) -> (r: Result<(u32, usize), SessionError>)
    ensures
        match r {
            Ok((x, q)) => take_u32(d@, p as int) == Ok::<(nat, int), SessionError>(
                (x as nat, q as int),
            ) && q <= d@.len(),
            Err(e) => take_u32(d@, p as int) == Err::<(nat, int), SessionError>(e),
        },
{
    if d.len() < 4 || p > d.len() - 4 {
        return Err(SessionError::ProtocolViolation);
    }
    let x = read_u32_be(d, p);
    Ok((x, p + 4))
}

fn rd_string(d: &[u8], p: usize) -> (r: Result<(Vec<u8>, usize), SessionError>)
    ensures
        match r {
            Ok((s, q)) => take_string(d@, p as int) == Ok::<(Seq<u8>, int), SessionError>(
                (s@, q as int),
            ) && q <= d@.len(),
            Err(e) => take_string(d@, p as int) == Err::<(Seq<u8>, int), SessionError>(e),
        },
{
    match rd_u16(d, p) {
        Ok((n, q)) => {
            if n as usize > d.len() - q {
                return Err(SessionError::ProtocolViolation);
            }
            let end = q + n as usize;
            let s = copy_range(d, q, end);
            Ok((s, end))
        },
        Err(e) => Err(e),
    }
}

fn rd_two_strings(d: &[u8], p: usize) -> (r: Result<usize, SessionError>)
    ensures
        match r {
            Ok(q) => take_two_strings(d@, p as int) == Ok::<int, SessionError>(q as int) && q
                <= d@.len(),
            Err(e) => take_two_strings(d@, p as int) == Err::<int, SessionError>(e),
        },
{
    match rd_string(d, p) {
        Ok((_ks, q)) => match rd_string(d, q) {
            Ok((_tbl, r2)) => Ok(r2),
            Err(e) => Err(e),
        },
        Err(e) => Err(e),
    }
}

/// Exec mirror of `coltype_of_id`.
fn id_to_coltype(id: u16) -> (t: Option<ColType>)
    ensures
        t == coltype_of_id(id as nat),
{
    if id == 0x01 {
        Some(ColType::Ascii)
    } else if id == 0x02 {
        Some(ColType::Bigint)
    } else if id == 0x03 {
        Some(ColType::Blob)
    } else if id == 0x04 {
        Some(ColType::Boolean)
    } else if id == 0x09 {
        Some(ColType::Int)
    } else if id == 0x0D {
        Some(ColType::Varchar)
    } else {
        None
    }
}

fn rd_colspec(d: &[u8], p: usize, per_col_table: bool) -> (r: Result<
    (ColSpec, usize),
    SessionError,
>)
    ensures
        match r {
            Ok((c, q)) => take_colspec(d@, p as int, per_col_table) == Ok::<
                (ColSpecModel, int),
                SessionError,
            >((c@, q as int)) && q <= d@.len(),
            Err(e) => take_colspec(d@, p as int, per_col_table) == Err::<
                (ColSpecModel, int),
                SessionError,
            >(e),
        },
{
    let p1 = if per_col_table {
        match rd_two_strings(d, p) {
            Ok(q) => q,
            Err(e) => {
                return Err(e);
            },
        }
    } else {
        p
    };
    match rd_string(d, p1) {
        Ok((name, p2)) => match rd_u16(d, p2) {
            Ok((id, p3)) => match id_to_coltype(id) {
                Some(t) => Ok((ColSpec { name, ctype: t }, p3)),
                None => Err(SessionError::Unsupported),
            },
            Err(e) => Err(e),
        },
        Err(e) => Err(e),
    }
}

fn rd_colspecs(d: &[u8], p: usize, n: u32, per_col_table: bool) -> (r: Result<
    (Vec<ColSpec>, usize),
    SessionError,
>)
    requires
        p <= d@.len(),
    ensures
        match r {
            Ok((cs, q)) => take_colspecs(d@, p as int, n as nat, per_col_table) == Ok::<
                (Seq<ColSpecModel>, int),
                SessionError,
            >((cs.deep_view(), q as int)) && q <= d@.len(),
            Err(e) => take_colspecs(d@, p as int, n as nat, per_col_table) == Err::<
                (Seq<ColSpecModel>, int),
                SessionError,
            >(e),
        },
    decreases n,
{
    if n == 0 {
        let cs: Vec<ColSpec> = Vec::new();
        assert(cs.deep_view() =~= Seq::<ColSpecModel>::empty());
        Ok((cs, p))
    } else {
        match rd_colspec(d, p, per_col_table) {
            Ok((c, q)) => match rd_colspecs(d, q, n - 1, per_col_table) {
                Ok((rest, r2)) => {
                    let ghost rest_snap = rest@;
                    let ghost rest_dv = rest.deep_view();
                    let ghost c_model = c@;
                    let mut cs = rest;
                    cs.insert(0, c);
                    proof {
                        assert(cs@ =~= seq![cs@[0]] + rest_snap);
                        assert(cs.deep_view() =~= seq![c_model] + rest_dv);
                    }
                    Ok((cs, r2))
                },
                Err(e) => Err(e),
            },
            Err(e) => Err(e),
        }
    }
}

fn rd_cell(d: &[u8], p: usize) -> (r: Result<(RawCell, usize), SessionError>)
    ensures
        match r {
            Ok((c, q)) => take_cell(d@, p as int) == Ok::<(Option<Seq<u8>>, int), SessionError>(
                (c@, q as int),
            ) && q <= d@.len(),
            Err(e) => take_cell(d@, p as int) == Err::<(Option<Seq<u8>>, int), SessionError>(e),
        },
{
    match rd_u32(d, p) {
        Ok((n, q)) => {
            if n >= 0x80000000 {
                Ok((RawCell::Absent, q))
            } else {
                if n as usize > d.len() - q {
                    return Err(SessionError::ProtocolViolation);
                }
                let end = q + n as usize;
                let bytes = copy_range(d, q, end);
                Ok((RawCell::Bytes(bytes), end))
            }
        },
        Err(e) => Err(e),
    }
}

fn rd_row(d: &[u8], p: usize, n: u32) -> (r: Result<(Vec<RawCell>, usize), SessionError>)
    requires
        p <= d@.len(),
    ensures
        match r {
            Ok((row, q)) => take_row(d@, p as int, n as nat) == Ok::<
                (Seq<Option<Seq<u8>>>, int),
                SessionError,
            >((row.deep_view(), q as int)) && q <= d@.len(),
            Err(e) => take_row(d@, p as int, n as nat) == Err::<
                (Seq<Option<Seq<u8>>>, int),
                SessionError,
            >(e),
        },
    decreases n,
{
    if n == 0 {
        let row: Vec<RawCell> = Vec::new();
        assert(row.deep_view() =~= Seq::<Option<Seq<u8>>>::empty());
        Ok((row, p))
    } else {
        match rd_cell(d, p) {
            Ok((c, q)) => match rd_row(d, q, n - 1) {
                Ok((rest, r2)) => {
                    let ghost rest_snap = rest@;
                    let ghost rest_dv = rest.deep_view();
                    let ghost c_model = c@;
                    let mut row = rest;
                    row.insert(0, c);
                    proof {
                        assert(row@ =~= seq![row@[0]] + rest_snap);
                        assert(row.deep_view() =~= seq![c_model] + rest_dv);
                    }
                    Ok((row, r2))
                },
                Err(e) => Err(e),
            },
            Err(e) => Err(e),
        }
    }
}

fn rd_rows(d: &[u8], p: usize, n: u32, ncols: u32) -> (r: Result<
    (Vec<Vec<RawCell>>, usize),
    SessionError,
>)
    requires
        p <= d@.len(),
    ensures
        match r {
            Ok((rows, q)) => take_rows(d@, p as int, n as nat, ncols as nat) == Ok::<
                (Seq<Seq<Option<Seq<u8>>>>, int),
                SessionError,
            >((rows.deep_view(), q as int)) && q <= d@.len(),
            Err(e) => take_rows(d@, p as int, n as nat, ncols as nat) == Err::<
                (Seq<Seq<Option<Seq<u8>>>>, int),
                SessionError,
            >(e),
        },
    decreases n,
{
    if n == 0 {
        let rows: Vec<Vec<RawCell>> = Vec::new();
        assert(rows.deep_view() =~= Seq::<Seq<Option<Seq<u8>>>>::empty());
        Ok((rows, p))
    } else {
        match rd_row(d, p, ncols) {
            Ok((row, q)) => match rd_rows(d, q, n - 1, ncols) {
                Ok((rest, r2)) => {
                    let ghost rest_snap = rest@;
                    let ghost rest_dv = rest.deep_view();
                    let ghost row_dv = row.deep_view();
                    let mut rows = rest;
                    rows.insert(0, row);
                    proof {
                        assert(rows@ =~= seq![rows@[0]] + rest_snap);
                        assert(rows.deep_view() =~= seq![row_dv] + rest_dv);
                    }
                    Ok((rows, r2))
                },
                Err(e) => Err(e),
            },
            Err(e) => Err(e),
        }
    }
}

/// Reads a result body as a rows result: the column specs and the raw cells.
pub fn parse_rows_body(b: &[u8]) -> (r: Result<(Vec<ColSpec>, Vec<Vec<RawCell>>), SessionError>)
    ensures
        match r {
            Ok((specs, cells)) => parse_rows_body_spec(b@) == Ok::<
                (Seq<ColSpecModel>, Seq<Seq<Option<Seq<u8>>>>),
                SessionError,
            >((specs.deep_view(), cells.deep_view())),
            Err(e) => parse_rows_body_spec(b@) == Err::<
                (Seq<ColSpecModel>, Seq<Seq<Option<Seq<u8>>>>),
                SessionError,
            >(e),
        },
{
    let (kind, p1) = match rd_u32(b, 0) {
        Ok(x) => x,
        Err(e) => {
            return Err(e);
        },
    };
    if kind != 2 {
        return Err(SessionError::ProtocolViolation);
    }
    let (flags, p2) = match rd_u32(b, p1) {
        Ok(x) => x,
        Err(e) => {
            return Err(e);
        },
    };
    if !(flags == 0 || flags == 1) {
        return Err(SessionError::Unsupported);
    }
    let (ncols, p3) = match rd_u32(b, p2) {
        Ok(x) => x,
        Err(e) => {
            return Err(e);
        },
    };
    if ncols >= 0x80000000 {
        return Err(SessionError::ProtocolViolation);
    }
    let p4 = if flags == 1 {
        match rd_two_strings(b, p3) {
            Ok(q) => q,
            Err(e) => {
                return Err(e);
            },
        }
    } else {
        p3
    };
    let (specs, p5) = match rd_colspecs(b, p4, ncols, flags == 0) {
        Ok(x) => x,
        Err(e) => {
            return Err(e);
        },
    };
    let (nrows, p6) = match rd_u32(b, p5) {
        Ok(x) => x,
        Err(e) => {
            return Err(e);
        },
    };
    if nrows >= 0x80000000 {
        return Err(SessionError::ProtocolViolation);
    }
    let (cells, p7) = match rd_rows(b, p6, nrows, ncols) {
        Ok(x) => x,
        Err(e) => {
            return Err(e);
        },
    };
    if p7 != b.len() {
        return Err(SessionError::ProtocolViolation);
    }
    Ok((specs, cells))
}

// ---------------------------------------------------------------------------
// Exec typed decoding.
// ---------------------------------------------------------------------------

/// Decodes one raw cell with a column type.
pub fn decode_cell(t: ColType, c: &RawCell) -> (r: Result<Value, SessionError>)
    ensures
        match r {
            Ok(v) => cell_value(t, c@) == Ok::<ValueModel, SessionError>(v@),
            Err(e) => cell_value(t, c@) == Err::<ValueModel, SessionError>(e),
        },
{
    match c {
        RawCell::Absent => Ok(Value::Null),
        RawCell::Bytes(b) => match t {
            ColType::Int => {
                if b.len() == 4 {
                    let n = read_u32_be(b.as_slice(), 0);
                    let wide: i64 = if n >= 0x80000000 {
                        (n as i64) - 0x100000000
                    } else {
                        n as i64
                    };
                    Ok(Value::Int(wide as i32))
                } else {
                    Err(SessionError::ProtocolViolation)
                }
            },
            ColType::Bigint => {
                if b.len() == 8 {
                    let hi = read_u32_be(b.as_slice(), 0);
                    let lo = read_u32_be(b.as_slice(), 4);
                    let n: u64 = (hi as u64) * 0x100000000 + (lo as u64);
                    let wide: i64 = if n >= 0x8000000000000000 {
                        -((u64::MAX - n) as i64) - 1
                    } else {
                        n as i64
                    };
                    Ok(Value::Bigint(wide))
                } else {
                    Err(SessionError::ProtocolViolation)
                }
            },
            ColType::Boolean => {
                if b.len() == 1 {
                    Ok(Value::Boolean(b[0] != 0))
                } else {
                    Err(SessionError::ProtocolViolation)
                }
            },
            ColType::Ascii => {
                let bytes = copy_range(b.as_slice(), 0, b.len());
                assert(bytes@ =~= b@);
                Ok(Value::Text(bytes))
            },
            ColType::Varchar => {
                let bytes = copy_range(b.as_slice(), 0, b.len());
                assert(bytes@ =~= b@);
                Ok(Value::Text(bytes))
            },
            ColType::Blob => {
                let bytes = copy_range(b.as_slice(), 0, b.len());
                assert(bytes@ =~= b@);
                Ok(Value::Blob(bytes))
            },
        },
    }
}

fn decode_row_rec(specs: &Vec<ColSpec>, row: &Vec<RawCell>, j: usize) -> (r: Result<
    Vec<Value>,
    SessionError,
>)
    requires
        row@.len() == specs@.len(),
        j <= specs@.len(),
    ensures
        match r {
            Ok(vals) => decode_row_from(specs.deep_view(), row.deep_view(), j as int) == Ok::<
                Seq<ValueModel>,
                SessionError,
            >(vals.deep_view()),
            Err(e) => decode_row_from(specs.deep_view(), row.deep_view(), j as int) == Err::<
                Seq<ValueModel>,
                SessionError,
            >(e),
        },
    decreases specs@.len() - j,
{
    if j == specs.len() {
        let vals: Vec<Value> = Vec::new();
        assert(vals.deep_view() =~= Seq::<ValueModel>::empty());
        Ok(vals)
    } else {
        match decode_cell(specs[j].ctype, &row[j]) {
            Ok(v) => match decode_row_rec(specs, row, j + 1) {
                Ok(rest) => {
                    let ghost rest_snap = rest@;
                    let ghost rest_dv = rest.deep_view();
                    let ghost v_model = v@;
                    let mut vals = rest;
                    vals.insert(0, v);
                    proof {
                        assert(vals@ =~= seq![vals@[0]] + rest_snap);
                        assert(vals.deep_view() =~= seq![v_model] + rest_dv);
                    }
                    Ok(vals)
                },
                Err(e) => Err(e),
            },
            Err(e) => Err(e),
        }
    }
}

fn decode_table_rec(specs: &Vec<ColSpec>, rows: &Vec<Vec<RawCell>>, i: usize) -> (r: Result<
    Vec<Vec<Value>>,
    SessionError,
>)
    requires
        i <= rows@.len(),
    ensures
        match r {
            Ok(table) => decode_table_from(specs.deep_view(), rows.deep_view(), i as int) == Ok::<
                Seq<Seq<ValueModel>>,
                SessionError,
            >(table.deep_view()),
            Err(e) => decode_table_from(specs.deep_view(), rows.deep_view(), i as int) == Err::<
                Seq<Seq<ValueModel>>,
                SessionError,
            >(e),
        },
    decreases rows@.len() - i,
{
    if i == rows.len() {
        let table: Vec<Vec<Value>> = Vec::new();
        assert(table.deep_view() =~= Seq::<Seq<ValueModel>>::empty());
        Ok(table)
    } else {
        if rows[i].len() != specs.len() {
            return Err(SessionError::ProtocolViolation);
        }
        match decode_row_rec(specs, &rows[i], 0) {
            Ok(vals) => match decode_table_rec(specs, rows, i + 1) {
                Ok(rest) => {
                    let ghost rest_snap = rest@;
                    let ghost rest_dv = rest.deep_view();
                    let ghost vals_dv = vals.deep_view();
                    let mut table = rest;
                    table.insert(0, vals);
                    proof {
                        assert(table@ =~= seq![table@[0]] + rest_snap);
                        assert(table.deep_view() =~= seq![vals_dv] + rest_dv);
                    }
                    Ok(table)
                },
                Err(e) => Err(e),
            },
            Err(e) => Err(e),
        }
    }
}

/// Decodes a parsed rows result into its typed table.
pub fn decode_rows(specs: &Vec<ColSpec>, cells: &Vec<Vec<RawCell>>) -> (r: Result<
    Vec<Vec<Value>>,
    SessionError,
>)
    ensures
        match r {
            Ok(table) => decode_table_from(specs.deep_view(), cells.deep_view(), 0) == Ok::<
                Seq<Seq<ValueModel>>,
                SessionError,
            >(table.deep_view()),
            Err(e) => decode_table_from(specs.deep_view(), cells.deep_view(), 0) == Err::<
                Seq<Seq<ValueModel>>,
                SessionError,
            >(e),
        },
{
    decode_table_rec(specs, cells, 0)
}

/// Reads a result body as a rows result and decodes its typed table.
pub fn rows_table(b: &[u8]) -> (r: Result<Vec<Vec<Value>>, SessionError>)
    ensures
        match r {
            Ok(table) => rows_table_spec(b@) == Ok::<Seq<Seq<ValueModel>>, SessionError>(
                table.deep_view(),
            ),
            Err(e) => rows_table_spec(b@) == Err::<Seq<Seq<ValueModel>>, SessionError>(e),
        },
{
    match parse_rows_body(b) {
        Ok((specs, cells)) => decode_rows(&specs, &cells),
        Err(e) => Err(e),
    }
}

// ---------------------------------------------------------------------------
// Laws.
// ---------------------------------------------------------------------------

proof fn lemma_decode_row_from_shape(
    specs: Seq<ColSpecModel>,
    row: Seq<Option<Seq<u8>>>,
    j: int,
    vals: Seq<ValueModel>,
)
    requires
        row.len() == specs.len(),
        0 <= j <= specs.len(),
        decode_row_from(specs, row, j) == Ok::<Seq<ValueModel>, SessionError>(vals),
    ensures
        vals.len() == specs.len() - j,
        forall|k: int|
            j <= k < specs.len() ==> cell_value((#[trigger] specs[k]).ctype, row[k]) == Ok::<
                ValueModel,
                SessionError,
            >(vals[k - j]),
    decreases specs.len() - j,
{
    if j < specs.len() {
        let v = cell_value(specs[j].ctype, row[j]).unwrap();
        let rest = decode_row_from(specs, row, j + 1).unwrap();
        assert(cell_value(specs[j].ctype, row[j]) == Ok::<ValueModel, SessionError>(v));
        assert(decode_row_from(specs, row, j + 1) == Ok::<Seq<ValueModel>, SessionError>(rest));
        lemma_decode_row_from_shape(specs, row, j + 1, rest);
        assert(vals == seq![v] + rest);
        assert forall|k: int| j <= k < specs.len() implies cell_value(
            (#[trigger] specs[k]).ctype,
            row[k],
        ) == Ok::<ValueModel, SessionError>(vals[k - j]) by {
            if k == j {
                assert(vals[k - j] == v);
            } else {
                assert(cell_value(specs[k].ctype, row[k]) == Ok::<ValueModel, SessionError>(
                    rest[k - (j + 1)],
                ));
                assert(vals[k - j] == rest[k - (j + 1)]);
            }
        }
    }
}

proof fn lemma_decode_table_from_shape(
    specs: Seq<ColSpecModel>,
    rows: Seq<Seq<Option<Seq<u8>>>>,
    i: int,
    table: Seq<Seq<ValueModel>>,
)
    requires
        0 <= i <= rows.len(),
        decode_table_from(specs, rows, i) == Ok::<Seq<Seq<ValueModel>>, SessionError>(table),
    ensures
        table.len() == rows.len() - i,
        forall|m: int| i <= m < rows.len() ==> (#[trigger] rows[m]).len() == specs.len(),
        forall|m: int|
            i <= m < rows.len() ==> decode_row_from(specs, #[trigger] rows[m], 0) == Ok::<
                Seq<ValueModel>,
                SessionError,
            >(table[m - i]),
    decreases rows.len() - i,
{
    if i < rows.len() {
        let vals = decode_row_from(specs, rows[i], 0).unwrap();
        let rest = decode_table_from(specs, rows, i + 1).unwrap();
        assert(decode_row_from(specs, rows[i], 0) == Ok::<Seq<ValueModel>, SessionError>(vals));
        assert(decode_table_from(specs, rows, i + 1) == Ok::<Seq<Seq<ValueModel>>, SessionError>(
            rest,
        ));
        lemma_decode_table_from_shape(specs, rows, i + 1, rest);
        assert(table == seq![vals] + rest);
        assert forall|m: int| i <= m < rows.len() implies decode_row_from(
            specs,
            #[trigger] rows[m],
            0,
        ) == Ok::<Seq<ValueModel>, SessionError>(table[m - i]) by {
            if m == i {
                assert(table[m - i] == vals);
            } else {
                assert(decode_row_from(specs, rows[m], 0) == Ok::<Seq<ValueModel>, SessionError>(
                    rest[m - (i + 1)],
                ));
                assert(table[m - i] == rest[m - (i + 1)]);
            }
        }
    }
}

/// Row decoding preserves shape, column order and per-column typing: the
/// decoded table has one row per raw row and one value per column, and the
/// value at row `i`, column `j` is exactly the cell at row `i`, column `j`
/// read with the type the metadata gives column `j`.
pub proof fn lemma_decode_table_preserves_columns(
    specs: Seq<ColSpecModel>,
    rows: Seq<Seq<Option<Seq<u8>>>>,
    table: Seq<Seq<ValueModel>>,
)
    requires
        decode_table_from(specs, rows, 0) == Ok::<Seq<Seq<ValueModel>>, SessionError>(table),
    ensures
        table.len() == rows.len(),
        forall|i: int| 0 <= i < rows.len() ==> (#[trigger] rows[i]).len() == specs.len(),
        forall|i: int| 0 <= i < table.len() ==> (#[trigger] table[i]).len() == specs.len(),
        forall|i: int, j: int|
            0 <= i < table.len() && 0 <= j < specs.len() ==> cell_value(
                specs[j].ctype,
                rows[i][j],
            ) == Ok::<ValueModel, SessionError>(#[trigger] table[i][j]),
{
    lemma_decode_table_from_shape(specs, rows, 0, table);
    assert forall|i: int| 0 <= i < table.len() implies (#[trigger] table[i]).len()
        == specs.len() by {
        assert(decode_row_from(specs, rows[i], 0) == Ok::<Seq<ValueModel>, SessionError>(
            table[i - 0],
        ));
        lemma_decode_row_from_shape(specs, rows[i], 0, table[i]);
    }
    assert forall|i: int, j: int|
        0 <= i < table.len() && 0 <= j < specs.len() implies cell_value(specs[j].ctype, rows[i][j])
        == Ok::<ValueModel, SessionError>(#[trigger] table[i][j]) by {
        assert(decode_row_from(specs, rows[i], 0) == Ok::<Seq<ValueModel>, SessionError>(
            table[i - 0],
        ));
        lemma_decode_row_from_shape(specs, rows[i], 0, table[i]);
    }
}

} // verus!
