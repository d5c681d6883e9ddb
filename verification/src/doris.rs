//! The verified side of the warehouse sink: its configuration, the
//! load-request model, the exact row rendering and URL building, and
//! the choice of a frontend endpoint.  The HTTP transport itself runs
//! outside this library and only hands results back.

use vstd::prelude::*;
use crate::buffer::{FieldValue, Schema};
use crate::element::Record;
use crate::errors::StreamError;
use crate::text::{push_i64, push_u64, i64_digits, render_i64, render_u64, u64_digits};

verus! {

/// The wire format of a sink batch.
#[derive(Clone, Copy, Debug, PartialEq, Eq, Structural)]
pub enum SinkFormat {
    JSON,
    CSV,
}

/// The sink's configuration.
#[derive(Clone, Debug)]
pub struct DorisConfigOption {
    pub fe_nodes: String,
    pub username: String,
    pub password: String,
    pub connect_timeout_ms: u32,
    pub read_timeout_ms: u32,
    pub sink_batch_size: u32,
    pub sink_max_retries: u32,
    pub sink_column_separator: String,
    pub sink_line_separator: String,
    pub sink_format: SinkFormat,
    pub sink_strip_outer_array: String,
    pub sink_default_seq_col: String,
    pub database: String,
    pub table: String,
}

/// The step-by-step builder of a sink configuration.
#[derive(Clone, Debug)]
pub struct DorisConfigOptionBuilder {
    pub fe_nodes: String,
    pub username: String,
    pub password: String,
    pub connect_timeout_ms: u32,
    pub read_timeout_ms: u32,
    pub sink_batch_size: u32,
    pub sink_max_retries: u32,
    pub sink_column_separator: String,
    pub sink_line_separator: String,
    pub sink_format: SinkFormat,
    pub sink_strip_outer_array: String,
    pub sink_default_seq_col: String,
    pub database: String,
    pub table: String,
}

impl DorisConfigOptionBuilder {
    /// The defaults: comma-separated columns, CRLF lines, JSON batches
    /// with the outer array stripped.
    pub fn new() -> (b: DorisConfigOptionBuilder)
        ensures
            b.fe_nodes@.len() == 0,
            b.username@.len() == 0,
            b.password@.len() == 0,
            b.connect_timeout_ms == 0,
            b.read_timeout_ms == 0,
            b.sink_batch_size == 0,
            b.sink_max_retries == 0,
            b.sink_column_separator@ == ","@,
            b.sink_line_separator@ == "\r\n"@,
            b.sink_format == SinkFormat::JSON,
            b.sink_strip_outer_array@ == "true"@,
            b.sink_default_seq_col@.len() == 0,
            b.database@.len() == 0,
            b.table@.len() == 0,
    {
        DorisConfigOptionBuilder {
            fe_nodes: String::new(),
            username: String::new(),
            password: String::new(),
            connect_timeout_ms: 0,
            read_timeout_ms: 0,
            sink_batch_size: 0,
            sink_max_retries: 0,
            sink_column_separator: String::from_str(","),
            sink_line_separator: String::from_str("\r\n"),
            sink_format: SinkFormat::JSON,
            sink_strip_outer_array: String::from_str("true"),
            sink_default_seq_col: String::new(),
            database: String::new(),
            table: String::new(),
        }
    }

    pub fn with_fe_nodes(&mut self, fe_nodes: String) -> (r: &mut DorisConfigOptionBuilder)
        ensures
            *r == (DorisConfigOptionBuilder { fe_nodes, ..*old(self) }),
            *final(self) == *final(r),
    {
        self.fe_nodes = fe_nodes;
        self
    }

    pub fn with_username(&mut self, username: String) -> (r: &mut DorisConfigOptionBuilder)
        ensures
            *r == (DorisConfigOptionBuilder { username, ..*old(self) }),
            *final(self) == *final(r),
    {
        self.username = username;
        self
    }

    pub fn with_password(&mut self, password: String) -> (r: &mut DorisConfigOptionBuilder)
        ensures
            *r == (DorisConfigOptionBuilder { password, ..*old(self) }),
            *final(self) == *final(r),
    {
        self.password = password;
        self
    }

    pub fn with_connect_timeout_ms(&mut self, connect_time_ms: u32) -> (r:
        &mut DorisConfigOptionBuilder)
        ensures
            *r == (DorisConfigOptionBuilder {
                connect_timeout_ms: connect_time_ms,
                ..*old(self)
            }),
            *final(self) == *final(r),
    {
        self.connect_timeout_ms = connect_time_ms;
        self
    }

    pub fn with_read_timeout_ms(&mut self, read_timeout_ms: u32) -> (r:
        &mut DorisConfigOptionBuilder)
        ensures
            *r == (DorisConfigOptionBuilder { read_timeout_ms, ..*old(self) }),
            *final(self) == *final(r),
    {
        self.read_timeout_ms = read_timeout_ms;
        self
    }

    pub fn with_sink_batch_size(&mut self, sink_batch_size: u32) -> (r:
        &mut DorisConfigOptionBuilder)
        ensures
            *r == (DorisConfigOptionBuilder { sink_batch_size, ..*old(self) }),
            *final(self) == *final(r),
    {
        self.sink_batch_size = sink_batch_size;
        self
    }

    pub fn with_sink_max_retries(&mut self, sink_max_retries: u32) -> (r:
        &mut DorisConfigOptionBuilder)
        ensures
            *r == (DorisConfigOptionBuilder { sink_max_retries, ..*old(self) }),
            *final(self) == *final(r),
    {
        self.sink_max_retries = sink_max_retries;
        self
    }

    pub fn with_sink_column_separator(&mut self, sink_column_separator: String) -> (r:
        &mut DorisConfigOptionBuilder)
        ensures
            *r == (DorisConfigOptionBuilder { sink_column_separator, ..*old(self) }),
            *final(self) == *final(r),
    {
        self.sink_column_separator = sink_column_separator;
        self
    }

    pub fn with_sink_line_separator(&mut self, sink_line_separator: String) -> (r:
        &mut DorisConfigOptionBuilder)
        ensures
            *r == (DorisConfigOptionBuilder { sink_line_separator, ..*old(self) }),
            *final(self) == *final(r),
    {
        self.sink_line_separator = sink_line_separator;
        self
    }

    pub fn with_sink_format(&mut self, sink_format: SinkFormat) -> (r:
        &mut DorisConfigOptionBuilder)
        ensures
            *r == (DorisConfigOptionBuilder { sink_format, ..*old(self) }),
            *final(self) == *final(r),
    {
        self.sink_format = sink_format;
        self
    }

    pub fn with_sink_strip_outer_array(&mut self, sink_strip_outer_array: String) -> (r:
        &mut DorisConfigOptionBuilder)
        ensures
            *r == (DorisConfigOptionBuilder { sink_strip_outer_array, ..*old(self) }),
            *final(self) == *final(r),
    {
        self.sink_strip_outer_array = sink_strip_outer_array;
        self
    }

    pub fn with_sink_default_seq_col(&mut self, sink_default_seq_col: String) -> (r:
        &mut DorisConfigOptionBuilder)
        ensures
            *r == (DorisConfigOptionBuilder { sink_default_seq_col, ..*old(self) }),
            *final(self) == *final(r),
    {
        self.sink_default_seq_col = sink_default_seq_col;
        self
    }

    pub fn with_database(&mut self, database: String) -> (r: &mut DorisConfigOptionBuilder)
        ensures
            *r == (DorisConfigOptionBuilder { database, ..*old(self) }),
            *final(self) == *final(r),
    {
        self.database = database;
        self
    }

    pub fn with_table(&mut self, table: String) -> (r: &mut DorisConfigOptionBuilder)
        ensures
            *r == (DorisConfigOptionBuilder { table, ..*old(self) }),
            *final(self) == *final(r),
    {
        self.table = table;
        self
    }

    /// Freeze the builder into a configuration, field for field.
    pub fn build(self) -> (o: DorisConfigOption)
        ensures
            o.fe_nodes == self.fe_nodes,
            o.username == self.username,
            o.password == self.password,
            o.connect_timeout_ms == self.connect_timeout_ms,
            o.read_timeout_ms == self.read_timeout_ms,
            o.sink_batch_size == self.sink_batch_size,
            o.sink_max_retries == self.sink_max_retries,
            o.sink_column_separator == self.sink_column_separator,
            o.sink_line_separator == self.sink_line_separator,
            o.sink_format == self.sink_format,
            o.sink_strip_outer_array == self.sink_strip_outer_array,
            o.sink_default_seq_col == self.sink_default_seq_col,
            o.database == self.database,
            o.table == self.table,
    {
        DorisConfigOption {
            fe_nodes: self.fe_nodes,
            username: self.username,
            password: self.password,
            connect_timeout_ms: self.connect_timeout_ms,
            read_timeout_ms: self.read_timeout_ms,
            sink_batch_size: self.sink_batch_size,
            sink_max_retries: self.sink_max_retries,
            sink_column_separator: self.sink_column_separator,
            sink_line_separator: self.sink_line_separator,
            sink_format: self.sink_format,
            sink_strip_outer_array: self.sink_strip_outer_array,
            sink_default_seq_col: self.sink_default_seq_col,
            database: self.database,
            table: self.table,
        }
    }
}

/// One row of a load batch: column name/value pairs.
pub type LoadRow = Vec<(String, String)>;

/// One batch bound for the warehouse.
#[derive(Clone, Debug)]
pub struct LoadRequest {
    pub value: Vec<LoadRow>,
    pub database: String,
    pub table: String,
    pub columns: Vec<String>,
    pub delete: bool,
    pub seq_col: String,
    pub label_prefix: String,
}

impl LoadRequest {
    pub fn new(
        value: Vec<LoadRow>,
        database: String,
        table: String,
        columns: Vec<String>,
        delete: bool,
        seq_col: String,
        label_prefix: String,
    ) -> (r: LoadRequest)
        ensures
            r.value == value,
            r.database == database,
            r.table == table,
            r.columns == columns,
            r.delete == delete,
            r.seq_col == seq_col,
            r.label_prefix == label_prefix,
    {
        LoadRequest { value, database, table, columns, delete, seq_col, label_prefix }
    }
}

/// What the warehouse reports for one stream-load call.
#[derive(Clone, Debug)]
pub struct RespContent {
    pub txn_id: i32,
    pub label: String,
    pub status: String,
    pub existing_job_status: String,
    pub message: String,
    pub number_total_rows: i64,
    pub number_loaded_rows: i64,
    pub number_filtered_rows: i32,
    pub number_unselected_rows: i32,
    pub load_bytes: i64,
    pub load_time_ms: i32,
    pub begin_txn_time_ms: i32,
    pub stream_load_put_time_ms: i32,
    pub read_data_time_ms: i32,
    pub write_data_time_ms: i32,
    pub commit_and_publish_time_ms: i32,
    pub error_url: String,
}

impl RespContent {
    /// The placeholder response for an empty request body.
    pub fn new() -> (r: RespContent)
        ensures
            r.txn_id == 0,
            r.label@.len() == 0,
            r.status@ == "200"@,
            r.existing_job_status@.len() == 0,
            r.message@ == "request body is empty"@,
            r.number_total_rows == 0,
            r.number_loaded_rows == 0,
            r.number_filtered_rows == 0,
            r.number_unselected_rows == 0,
            r.load_bytes == 0,
            r.load_time_ms == 0,
            r.begin_txn_time_ms == 0,
            r.stream_load_put_time_ms == 0,
            r.read_data_time_ms == 0,
            r.write_data_time_ms == 0,
            r.commit_and_publish_time_ms == 0,
            r.error_url@.len() == 0,
    {
        RespContent {
            txn_id: 0,
            label: String::new(),
            status: String::from_str("200"),
            existing_job_status: String::new(),
            message: String::from_str("request body is empty"),
            number_total_rows: 0,
            number_loaded_rows: 0,
            number_filtered_rows: 0,
            number_unselected_rows: 0,
            load_bytes: 0,
            load_time_ms: 0,
            begin_txn_time_ms: 0,
            stream_load_put_time_ms: 0,
            read_data_time_ms: 0,
            write_data_time_ms: 0,
            commit_and_publish_time_ms: 0,
            error_url: String::new(),
        }
    }
}

/// The transport-level wrapper around a response.
#[derive(Clone, Debug)]
pub struct LoadResponse {
    pub status: i32,
    pub resp_msg: String,
    pub resp_content: RespContent,
}

impl LoadResponse {
    pub fn new0(status: i32, resp_msg: String, resp_content: RespContent) -> (r: LoadResponse)
        ensures
            r.status == status,
            r.resp_msg == resp_msg,
            r.resp_content == resp_content,
    {
        LoadResponse { status, resp_msg, resp_content }
    }
}

/// The exact text of one field value, where an exact text exists:
/// booleans and integers render as their canonical forms, strings as
/// themselves.  Floating-point bit patterns and raw bytes have no exact
/// decimal text here and render outside the library.
pub open spec fn field_text(value: FieldValue) -> Option<Seq<char>> {
    match value {
        FieldValue::Bool(b) => Some(if b {
            "true"@
        } else {
            "false"@
        }),
        FieldValue::I8(v) => Some(i64_digits(v as int)),
        FieldValue::U8(v) => Some(u64_digits(v as nat)),
        FieldValue::I16(v) => Some(i64_digits(v as int)),
        FieldValue::U16(v) => Some(u64_digits(v as nat)),
        FieldValue::I32(v) => Some(i64_digits(v as int)),
        FieldValue::U32(v) => Some(u64_digits(v as nat)),
        FieldValue::I64(v) => Some(i64_digits(v as int)),
        FieldValue::U64(v) => Some(u64_digits(v as nat)),
        FieldValue::Str(s) => Some(s@),
        FieldValue::F32Bits(_) => None,
        FieldValue::F64Bits(_) => None,
        FieldValue::Bytes(_) => None,
    }
}

/// Render one field value exactly, where an exact text exists.
pub fn render_field(value: &FieldValue) -> (r: Option<String>)
    ensures
        r is Some <==> field_text(*value) is Some,
        r is Some ==> r->0@ == field_text(*value)->0,
{
    match value {
        FieldValue::Bool(b) => {
            if *b {
                Some(String::from_str("true"))
            } else {
                Some(String::from_str("false"))
            }
        },
        FieldValue::I8(v) => Some(render_i64(*v as i64)),
        FieldValue::U8(v) => Some(render_u64(*v as u64)),
        FieldValue::I16(v) => Some(render_i64(*v as i64)),
        FieldValue::U16(v) => Some(render_u64(*v as u64)),
        FieldValue::I32(v) => Some(render_i64(*v as i64)),
        FieldValue::U32(v) => Some(render_u64(*v as u64)),
        FieldValue::I64(v) => Some(render_i64(*v)),
        FieldValue::U64(v) => Some(render_u64(*v)),
        FieldValue::Str(s) => Some(s.clone()),
        FieldValue::F32Bits(_) => None,
        FieldValue::F64Bits(_) => None,
        FieldValue::Bytes(_) => None,
    }
}

/// Render one record as a named row for a load batch: each field's
/// exact text under its schema name, in declared order.  `None` exactly
/// when the record does not fill the schema or some field has no exact
/// text here.
#[verifier::loop_isolation(false)]
pub fn record_to_row(record: &Record, schema: &Schema) -> (r: Option<LoadRow>)
    ensures
        r is Some <==> (record@.len() == schema@.len() && (forall|i: int|
            0 <= i < record@.len() ==> field_text(#[trigger] record@[i]) is Some)),
        r is Some ==> ({
            &&& r->0@.len() == schema@.len()
            &&& forall|i: int|
                0 <= i < r->0@.len() ==> (#[trigger] r->0@[i]).0 == schema@[i].name
                    && r->0@[i].1@ == field_text(record@[i])->0
        }),
{
    if record.len() != schema.len() {
        return None;
    }
    let n = schema.len();
    let mut row: LoadRow = Vec::new();
    let mut i: usize = 0;
    while i < n
        invariant
            n == schema@.len(),
            n == record@.len(),
            i <= n,
            row@.len() == i,
            forall|j: int| 0 <= j < i ==> field_text(#[trigger] record@[j]) is Some,
            forall|j: int|
                0 <= j < i ==> (#[trigger] row@[j]).0 == schema@[j].name && row@[j].1@
                    == field_text(record@[j])->0,
        decreases n - i,
    {
        let value = match record.get(i) {
            Ok(value) => value,
            Err(_) => {
                return None;
            },
        };
        let text = match render_field(value) {
            Some(text) => text,
            None => {
                return None;
            },
        };
        row.push((schema.field_name(i).clone(), text));
        i = i + 1;
    }
    Some(row)
}

/// The value of a named column in a row: the first pair with that name.
pub open spec fn find_col(row: Seq<(String, String)>, col: Seq<char>) -> Option<String>
    decreases row.len(),
{
    if row.len() == 0 {
        None
    } else if row[0].0@ == col {
        Some(row[0].1)
    } else {
        find_col(row.drop_first(), col)
    }
}

/// One CSV row: every column's value, in declared column order,
/// concatenated; `None` when a column is missing.
pub open spec fn row_text(row: Seq<(String, String)>, columns: Seq<String>) -> Option<Seq<char>>
    decreases columns.len(),
{
    if columns.len() == 0 {
        Some(Seq::empty())
    } else {
        match row_text(row, columns.drop_last()) {
            None => None,
            Some(head) => match find_col(row, columns.last()@) {
                None => None,
                Some(v) => Some(head + v@),
            },
        }
    }
}

/// A whole CSV batch: every row's text, in order, concatenated.
pub open spec fn csv_text(values: Seq<LoadRow>, columns: Seq<String>) -> Option<Seq<char>>
    decreases values.len(),
{
    if values.len() == 0 {
        Some(Seq::empty())
    } else {
        match csv_text(values.drop_last(), columns) {
            None => None,
            Some(head) => match row_text(values.last()@, columns) {
                None => None,
                Some(row) => Some(head + row),
            },
        }
    }
}

/// Look one column up in a row.
#[verifier::loop_isolation(false)]
fn lookup_col<'a>(row: &'a LoadRow, col: &String) -> (r: Option<&'a String>)
    ensures
        match r {
            Some(v) => find_col(row@, col@) == Some(*v),
            None => find_col(row@, col@) is None,
        },
{
    let n = row.len();
    let mut i: usize = 0;
    while i < n
        invariant
            n == row@.len(),
            i <= n,
            forall|j: int| 0 <= j < i ==> row@[j].0@ != col@,
        decreases n - i,
    {
        if row[i].0.eq(col) {
            proof {
                lemma_find_col_first(row@, col@, i as int);
            }
            return Some(&row[i].1);
        }
        i = i + 1;
    }
    proof {
        lemma_find_col_absent(row@, col@);
    }
    None
}

/// If no earlier pair holds the column, the first matching pair wins.
proof fn lemma_find_col_first(row: Seq<(String, String)>, col: Seq<char>, i: int)
    requires
        0 <= i < row.len(),
        row[i].0@ == col,
        forall|j: int| 0 <= j < i ==> row[j].0@ != col,
    ensures
        find_col(row, col) == Some(row[i].1),
    decreases i,
{
    if i > 0 {
        assert forall|j: int| 0 <= j < row.len() - 1 implies #[trigger] row.drop_first()[j]
            == row[j + 1] by {}
        lemma_find_col_first(row.drop_first(), col, i - 1);
    }
}

/// With no matching pair, the lookup is empty.
proof fn lemma_find_col_absent(row: Seq<(String, String)>, col: Seq<char>)
    requires
        forall|j: int| 0 <= j < row.len() ==> row[j].0@ != col,
    ensures
        find_col(row, col) is None,
    decreases row.len(),
{
    if row.len() > 0 {
        assert forall|j: int| 0 <= j < row.len() - 1 implies row.drop_first()[j].0@ != col by {
            assert(row.drop_first()[j] == row[j + 1]);
        }
        lemma_find_col_absent(row.drop_first(), col);
    }
}

/// Render one batch as CSV text: every row's columns in declared order,
/// concatenated.  Fails exactly when some row misses some column.
#[verifier::loop_isolation(false)]
pub fn render_csv(values: &Vec<LoadRow>, columns: &Vec<String>) -> (r: Result<
    String,
    StreamError,
>)
    ensures
        r is Ok <==> csv_text(values@, columns@) is Some,
        r is Ok ==> Some(r->Ok_0@) == csv_text(values@, columns@),
        r is Err ==> r == Err::<String, StreamError>(StreamError::MalformedRecord),
{
    let mut out = String::new();
    let n = values.len();
    let mut i: usize = 0;
    while i < n
        invariant
            n == values@.len(),
            i <= n,
            Some(out@) == csv_text(values@.take(i as int), columns@),
        decreases n - i,
    {
        proof {
            assert(values@.take(i as int + 1).drop_last() =~= values@.take(i as int));
            assert(values@.take(i as int + 1).last() == values@[i as int]);
        }
        let row = &values[i];
        let m = columns.len();
        let mut c: usize = 0;
        let ghost row_start = out@;
        while c < m
            invariant
                m == columns@.len(),
                c <= m,
                out@.len() >= row_start.len(),
                out@.take(row_start.len() as int) == row_start,
                row_text(row@, columns@.take(c as int)) == Some(out@.skip(row_start.len() as int)),
                Some(row_start) == csv_text(values@.take(i as int), columns@),
            decreases m - c,
        {
            proof {
                assert(columns@.take(c as int + 1).drop_last() =~= columns@.take(c as int));
                assert(columns@.take(c as int + 1).last() == columns@[c as int]);
            }
            let value = match lookup_col(row, &columns[c]) {
                Some(v) => v,
                None => {
                    proof {
                        lemma_row_text_missing(row@, columns@, c as int);
                        lemma_csv_text_missing(values@, columns@, i as int);
                    }
                    return Err(StreamError::MalformedRecord);
                },
            };
            let ghost pre = out@;
            out.append(value.as_str());
            proof {
                assert(out@.take(row_start.len() as int) =~= row_start);
                assert(out@.skip(row_start.len() as int) =~= pre.skip(row_start.len() as int)
                    + value@);
            }
            c = c + 1;
        }
        proof {
            assert(columns@.take(m as int) =~= columns@);
            assert(out@ =~= row_start + out@.skip(row_start.len() as int));
        }
        i = i + 1;
    }
    proof {
        assert(values@.take(n as int) =~= values@);
    }
    Ok(out)
}

/// A missing column poisons the whole row.
proof fn lemma_row_text_missing(row: Seq<(String, String)>, columns: Seq<String>, c: int)
    requires
        0 <= c < columns.len(),
        find_col(row, columns[c]@) is None,
    ensures
        row_text(row, columns) is None,
    decreases columns.len(),
{
    if c == columns.len() - 1 {
    } else {
        assert(columns.drop_last()[c] == columns[c]);
        lemma_row_text_missing(row, columns.drop_last(), c);
    }
}

/// A poisoned row poisons the whole batch.
proof fn lemma_csv_text_missing(values: Seq<LoadRow>, columns: Seq<String>, i: int)
    requires
        0 <= i < values.len(),
        row_text(values[i]@, columns) is None,
    ensures
        csv_text(values, columns) is None,
    decreases values.len(),
{
    if i == values.len() - 1 {
    } else {
        assert(values.drop_last()[i] == values[i]);
        lemma_csv_text_missing(values.drop_last(), columns, i);
    }
}

/// The stream-load URL of one table behind one backend.
pub fn build_stream_load_url(backend: &str, database: &str, table: &str) -> (r: String)
    ensures
        r@ == "http://"@ + backend@ + "/api/"@ + database@ + "/"@ + table@ + "/_stream_load?"@,
{
    let mut out = String::new();
    out.append("http://");
    out.append(backend);
    out.append("/api/");
    out.append(database);
    out.append("/");
    out.append(table);
    out.append("/_stream_load?");
    proof {
        assert(out@ =~= "http://"@ + backend@ + "/api/"@ + database@ + "/"@ + table@
            + "/_stream_load?"@);
    }
    out
}

/// One backend's address: its host and HTTP port.
pub fn format_backend(ip: &str, http_port: i32) -> (r: String)
    ensures
        r@ == ip@ + ":"@ + i64_digits(http_port as int),
{
    let mut out = String::new();
    out.append(ip);
    out.append(":");
    push_i64(&mut out, http_port as i64);
    proof {
        assert(out@ =~= ip@ + ":"@ + i64_digits(http_port as int));
    }
    out
}

/// Relies on rand::random_range: a uniformly drawn index below `n`.
/// Nothing more can be promised of a random draw.
#[verifier::external_body]
fn random_index(n: usize) -> (r: usize)
    requires
        n > 0,
    ensures
        r < n,
{
    rand::random_range(0..n)
}

/// Pick one frontend node from a comma-separated list: a complete
/// comma-delimited piece of the list, chosen at random.
#[verifier::loop_isolation(false)]
pub fn random_endpoint(fe_nodes: &String) -> (r: Result<String, StreamError>)
    ensures
        r is Ok,
        ({
            let s = fe_nodes@;
            let piece = r->Ok_0@;
            exists|a: int, b: int|
                {
                    &&& 0 <= a <= b <= s.len()
                    &&& piece =~= s.subrange(a, b)
                    &&& (a == 0 || s[a - 1] == ',')
                    &&& (b == s.len() || s[b] == ',')
                    &&& forall|k: int| a <= k < b ==> s[k] != ','
                }
        }),
{
    let s = fe_nodes.as_str();
    let len = s.unicode_len();
    let mut commas: usize = 0;
    let mut i: usize = 0;
    while i < len
        invariant
            len == s@.len(),
            i <= len,
            commas <= i,
        decreases len - i,
    {
        if s.get_char(i) == ',' {
            commas = commas + 1;
        }
        i = i + 1;
    }
    let pieces: usize = if commas < usize::MAX {
        commas + 1
    } else {
        usize::MAX
    };
    let pick = random_index(pieces);
    let mut piece_index: usize = 0;
    let mut start: usize = 0;
    let mut j: usize = 0;
    while j < len
        invariant
            len == s@.len(),
            start <= j <= len,
            piece_index <= pick,
            start == 0 || s@[start - 1] == ',',
            forall|k: int| start <= k < j ==> s@[k] != ',',
        decreases len - j,
    {
        if s.get_char(j) == ',' {
            if piece_index == pick {
                let piece = s.substring_char(start, j);
                return Ok(String::from_str(piece));
            }
            piece_index = piece_index + 1;
            start = j + 1;
        }
        j = j + 1;
    }
    let piece = s.substring_char(start, len);
    Ok(String::from_str(piece))
}

} // verus!
