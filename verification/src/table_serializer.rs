use crate::config::strings_view;
use crate::text::{concat, lemma_concat_push, lemma_concat_take};
use vstd::prelude::*;
use vstd::string::StringExecFns;

verus! {

/// The members of the JSON object that `text` holds, each name mapped to the
/// compact JSON text of its value as `serde_json` renders it (of a name given
/// twice, the last value); `None` when `serde_json` refuses the text as a map
/// from names to values (it is not a JSON object, or it holds a number out of
/// range or nests too deep).
pub uninterp spec fn json_object_members(text: Seq<char>) -> Option<Map<Seq<char>, Seq<char>>>;

/// No two members of `row` share a name.
pub open spec fn keys_distinct(row: Seq<(String, String)>) -> bool {
    forall|a: int, b: int| 0 <= a < b < row.len() ==> row[a].0@ != row[b].0@
}

/// Some member of `row` is named `key`.
pub open spec fn has_key(row: Seq<(String, String)>, key: Seq<char>) -> bool {
    exists|j: int| 0 <= j < row.len() && row[j].0@ == key
}

/// The members of `row` as a map from name to value.
pub open spec fn pairs_map(row: Seq<(String, String)>) -> Map<Seq<char>, Seq<char>> {
    Map::new(
        |k: Seq<char>| has_key(row, k),
        |k: Seq<char>| row[choose|j: int| 0 <= j < row.len() && row[j].0@ == k].1@,
    )
}

/// `row` lists, without repeating a name, exactly the members of `m`.
pub open spec fn lists_members(row: Seq<(String, String)>, m: Map<Seq<char>, Seq<char>>) -> bool {
    &&& keys_distinct(row)
    &&& forall|k: Seq<char>| m.dom().contains(k) <==> has_key(row, k)
    &&& forall|j: int| 0 <= j < row.len() ==> #[trigger] m[row[j].0@] == row[j].1@
}

/// `serde_json::from_str`, into a map from member names to `serde_json::Value`,
/// with each value then rendered by `serde_json::Value`'s `Display` (compact
/// JSON). The result is `None` exactly when `serde_json` refuses the text; the
/// members come in the order in which the map is walked, which is left unsaid.
#[verifier::external_body]
fn parse_json_object(text: &str) -> (r: Option<Vec<(String, String)>>)
    ensures
        r is Some <==> json_object_members(text@) is Some,
        r matches Some(v) ==> lists_members(v@, json_object_members(text@).unwrap()),
{
    match serde_json::from_str::<std::collections::HashMap<String, serde_json::Value>>(text) {
        Ok(m) => Some(m.into_iter().map(|(k, v)| (k, v.to_string())).collect()),
        Err(_) => None,
    }
}

/// `body` between an opening and a closing `tag`.
pub open spec fn wrap_html(tag: Seq<char>, body: Seq<char>) -> Seq<char> {
    "<"@ + tag + ">"@ + body + "</"@ + tag + ">"@
}

/// The header row: one `th` cell per field, in order.
pub open spec fn header_cells(fields: Seq<Seq<char>>) -> Seq<char> {
    concat(fields.map_values(|f: Seq<char>| wrap_html("th"@, f)))
}

/// The cells of one item: one `td` cell per field, in the order of the fields.
pub open spec fn row_cells(fields: Seq<Seq<char>>, m: Map<Seq<char>, Seq<char>>) -> Seq<char> {
    concat(fields.map_values(|f: Seq<char>| wrap_html("td"@, m[f])))
}

/// The table of `rows`, one `tr` per item after the header cells.
pub open spec fn table_html(fields: Seq<Seq<char>>, rows: Seq<Map<Seq<char>, Seq<char>>>) -> Seq<char> {
    wrap_html(
        "table"@,
        header_cells(fields) + concat(
            rows.map_values(|m: Map<Seq<char>, Seq<char>>| wrap_html("tr"@, row_cells(fields, m))),
        ),
    )
}

/// Every item's JSON text is an object that has a member for every field.
pub open spec fn rows_complete(fields: Seq<Seq<char>>, rows_json: Seq<String>) -> bool {
    forall|i: int|
        0 <= i < rows_json.len() ==> match #[trigger] json_object_members(rows_json[i]@) {
            Some(m) => forall|f: int| 0 <= f < fields.len() ==> m.dom().contains(fields[f]),
            None => false,
        }
}

proof fn lemma_tags()
    ensures
        "<table>"@ == "<"@ + "table"@ + ">"@,
        "</table>"@ == "</"@ + "table"@ + ">"@,
        "<tr>"@ == "<"@ + "tr"@ + ">"@,
        "</tr>"@ == "</"@ + "tr"@ + ">"@,
        "<td>"@ == "<"@ + "td"@ + ">"@,
        "</td>"@ == "</"@ + "td"@ + ">"@,
        "<th>"@ == "<"@ + "th"@ + ">"@,
        "</th>"@ == "</"@ + "th"@ + ">"@,
        "</table>"@.len() == 8,
{
    reveal_strlit("<");
    reveal_strlit(">");
    reveal_strlit("</");
    reveal_strlit("table");
    reveal_strlit("tr");
    reveal_strlit("td");
    reveal_strlit("th");
    reveal_strlit("<table>");
    reveal_strlit("</table>");
    reveal_strlit("<tr>");
    reveal_strlit("</tr>");
    reveal_strlit("<td>");
    reveal_strlit("</td>");
    reveal_strlit("<th>");
    reveal_strlit("</th>");
    assert("<table>"@ =~= "<"@ + "table"@ + ">"@);
    assert("</table>"@ =~= "</"@ + "table"@ + ">"@);
    assert("<tr>"@ =~= "<"@ + "tr"@ + ">"@);
    assert("</tr>"@ =~= "</"@ + "tr"@ + ">"@);
    assert("<td>"@ =~= "<"@ + "td"@ + ">"@);
    assert("</td>"@ =~= "</"@ + "td"@ + ">"@);
    assert("<th>"@ =~= "<"@ + "th"@ + ">"@);
    assert("</th>"@ =~= "</"@ + "th"@ + ">"@);
}

/// The table of no items is the header cells alone, inside `<table>`.
pub proof fn lemma_table_of_no_items(fields: Seq<Seq<char>>)
    ensures
        table_html(fields, Seq::empty()) == "<table>"@ + header_cells(fields) + "</table>"@,
{
    lemma_tags();
    let e = Seq::<Map<Seq<char>, Seq<char>>>::empty().map_values(
        |m: Map<Seq<char>, Seq<char>>| wrap_html("tr"@, row_cells(fields, m)),
    );
    assert(e =~= Seq::<Seq<char>>::empty());
    assert(concat(e) =~= Seq::<char>::empty());
    assert(table_html(fields, Seq::empty()) =~= "<table>"@ + header_cells(fields) + "</table>"@);
}

/// One more item gives the table one more row, for that item, after the
/// rows already there and before `</table>`: the table has exactly one row
/// per item, in the order of the items.
#[verifier::rlimit(40)]
pub proof fn lemma_table_one_more_item(
    fields: Seq<Seq<char>>,
    rows: Seq<Map<Seq<char>, Seq<char>>>,
    m: Map<Seq<char>, Seq<char>>,
)
    ensures
        ({
            let t = table_html(fields, rows);
            &&& t.skip(t.len() - 8) == "</table>"@
            &&& table_html(fields, rows.push(m)) == t.take(t.len() - 8) + "<tr>"@ + row_cells(
                fields,
                m,
            ) + "</tr>"@ + "</table>"@
        }),
{
    lemma_tags();
    let f = |m: Map<Seq<char>, Seq<char>>| wrap_html("tr"@, row_cells(fields, m));
    let before = rows.map_values(f);
    assert(rows.push(m).map_values(f) =~= before.push(f(m)));
    lemma_concat_push(before, f(m));
    let inner = header_cells(fields) + concat(before);
    let t = table_html(fields, rows);
    let close = "</table>"@;
    assert(t == "<table>"@ + inner + close) by {
        assert(t =~= "<table>"@ + inner + close);
    }
    let n = t.len() - 8;
    assert(t.skip(n) =~= close);
    assert(t.take(n) =~= "<table>"@ + inner);
    let row = "<tr>"@ + row_cells(fields, m) + "</tr>"@;
    assert(f(m) == row) by {
        assert(f(m) =~= row);
    }
    assert(table_html(fields, rows.push(m)) == "<table>"@ + (inner + row) + close) by {
        assert(table_html(fields, rows.push(m)) =~= "<table>"@ + (inner + row) + close);
    }
    assert(table_html(fields, rows.push(m)) =~= t.take(n) + "<tr>"@ + row_cells(fields, m) + "</tr>"@
        + close);
}

/// One more field gives every row one more cell, the item's value for that
/// field, after the cells already there.
pub proof fn lemma_row_one_more_field(
    fields: Seq<Seq<char>>,
    x: Seq<char>,
    m: Map<Seq<char>, Seq<char>>,
)
    ensures
        row_cells(fields.push(x), m) == row_cells(fields, m) + "<td>"@ + m[x] + "</td>"@,
        row_cells(Seq::empty(), m) == Seq::<char>::empty(),
{
    lemma_tags();
    let f = |k: Seq<char>| wrap_html("td"@, m[k]);
    assert(fields.push(x).map_values(f) =~= fields.map_values(f).push(f(x)));
    lemma_concat_push(fields.map_values(f), f(x));
    assert(f(x) =~= "<td>"@ + m[x] + "</td>"@);
    assert(Seq::<Seq<char>>::empty().map_values(f) =~= Seq::<Seq<char>>::empty());
}

/// One more field gives the header one more cell, the field's name, after
/// the cells already there.
pub proof fn lemma_header_one_more_field(fields: Seq<Seq<char>>, x: Seq<char>)
    ensures
        header_cells(fields.push(x)) == header_cells(fields) + "<th>"@ + x + "</th>"@,
        header_cells(Seq::empty()) == Seq::<char>::empty(),
{
    lemma_tags();
    let f = |k: Seq<char>| wrap_html("th"@, k);
    assert(fields.push(x).map_values(f) =~= fields.map_values(f).push(f(x)));
    lemma_concat_push(fields.map_values(f), f(x));
    assert(f(x) =~= "<th>"@ + x + "</th>"@);
    assert(Seq::<Seq<char>>::empty().map_values(f) =~= Seq::<Seq<char>>::empty());
}

/// `body` between an opening and a closing `tag`.
pub fn wrap(tag: &str, body: &str) -> (r: String)
    ensures
        r@ == wrap_html(tag@, body@),
{
    let mut r = String::from_str("<");
    r.append(tag);
    r.append(">");
    r.append(body);
    r.append("</");
    r.append(tag);
    r.append(">");
    r
}

proof fn lemma_pairs_map_at(row: Seq<(String, String)>, j: int)
    requires
        keys_distinct(row),
        0 <= j < row.len(),
    ensures
        pairs_map(row).dom().contains(row[j].0@),
        pairs_map(row)[row[j].0@] == row[j].1@,
{
    let k = row[j].0@;
    assert(has_key(row, k));
    assert forall|i: int| 0 <= i < row.len() && row[i].0@ == k implies i == j by {
        if i < j {
            assert(row[i].0@ != row[j].0@);
        } else if i > j {
            assert(row[j].0@ != row[i].0@);
        }
    }
}

proof fn lemma_lists_members_is_pairs_map(row: Seq<(String, String)>, m: Map<Seq<char>, Seq<char>>)
    requires
        lists_members(row, m),
    ensures
        m == pairs_map(row),
{
    assert forall|k: Seq<char>| #[trigger] m.dom().contains(k) implies m[k] == pairs_map(row)[k] by {
        assert(has_key(row, k));
        let j = choose|j: int| 0 <= j < row.len() && row[j].0@ == k;
        lemma_pairs_map_at(row, j);
        assert(m[row[j].0@] == row[j].1@);
    }
    assert(m.dom() =~= pairs_map(row).dom());
    assert(m =~= pairs_map(row));
}

/// Where the member named `key` stands in `row`, if it has one.
fn find_member(row: &Vec<(String, String)>, key: &String) -> (r: Option<usize>)
    ensures
        match r {
            Some(j) => j < row@.len() && row@[j as int].0@ == key@,
            None => !has_key(row@, key@),
        },
{
    let mut j: usize = 0;
    while j < row.len()
        invariant
            j <= row@.len(),
            forall|i: int| 0 <= i < j ==> row@[i].0@ != key@,
        decreases row.len() - j,
    {
        if row[j].0 == *key {
            return Some(j);
        }
        j = j + 1;
    }
    None
}

/// The header cells for `fields`.
fn render_header(fields: &Vec<String>) -> (r: String)
    ensures
        r@ == header_cells(strings_view(fields@)),
{
    let ghost fv = strings_view(fields@);
    let ghost cells = fv.map_values(|f: Seq<char>| wrap_html("th"@, f));
    let mut out = String::new();
    let mut i: usize = 0;
    while i < fields.len()
        invariant
            i <= fields@.len(),
            fv == strings_view(fields@),
            cells == fv.map_values(|f: Seq<char>| wrap_html("th"@, f)),
            out@ == concat(cells.take(i as int)),
        decreases fields.len() - i,
    {
        proof {
            lemma_concat_take(cells, i as int);
        }
        let cell = wrap("th", fields[i].as_str());
        out.append(cell.as_str());
        i = i + 1;
    }
    assert(cells.take(fields@.len() as int) =~= cells);
    out
}

/// The `tr` element of one item.
fn render_row(fields: &Vec<String>, row: &Vec<(String, String)>) -> (r: String)
    requires
        keys_distinct(row@),
        forall|f: int| 0 <= f < fields@.len() ==> has_key(row@, #[trigger] fields@[f]@),
    ensures
        r@ == wrap_html("tr"@, row_cells(strings_view(fields@), pairs_map(row@))),
{
    let ghost fv = strings_view(fields@);
    let ghost m = pairs_map(row@);
    let ghost cells = fv.map_values(|f: Seq<char>| wrap_html("td"@, m[f]));
    let mut out = String::new();
    let mut i: usize = 0;
    while i < fields.len()
        invariant
            i <= fields@.len(),
            fv == strings_view(fields@),
            m == pairs_map(row@),
            keys_distinct(row@),
            forall|f: int| 0 <= f < fields@.len() ==> has_key(row@, #[trigger] fields@[f]@),
            cells == fv.map_values(|f: Seq<char>| wrap_html("td"@, m[f])),
            out@ == concat(cells.take(i as int)),
        decreases fields.len() - i,
    {
        proof {
            lemma_concat_take(cells, i as int);
        }
        assert(has_key(row@, fields@[i as int]@));
        match find_member(row, &fields[i]) {
            Some(j) => {
                proof {
                    lemma_pairs_map_at(row@, j as int);
                }
                let cell = wrap("td", row[j].1.as_str());
                out.append(cell.as_str());
            },
            None => {
                assert(false);
            },
        }
        i = i + 1;
    }
    assert(cells.take(fields@.len() as int) =~= cells);
    wrap("tr", out.as_str())
}

/// The HTML table of `rows`: a header cell for each field, then one row per
/// item with the item's value for each field, in the order of the fields.
pub fn render_table(fields: &Vec<String>, rows: &Vec<Vec<(String, String)>>) -> (t: String)
    requires
        forall|i: int| 0 <= i < rows@.len() ==> keys_distinct(#[trigger] rows@[i]@),
        forall|i: int, f: int|
            0 <= i < rows@.len() && 0 <= f < fields@.len() ==> has_key(
                #[trigger] rows@[i]@,
                #[trigger] fields@[f]@,
            ),
    ensures
        t@ == table_html(
            strings_view(fields@),
            rows@.map_values(|r: Vec<(String, String)>| pairs_map(r@)),
        ),
{
    let ghost fv = strings_view(fields@);
    let ghost maps = rows@.map_values(|r: Vec<(String, String)>| pairs_map(r@));
    let ghost trs = maps.map_values(
        |m: Map<Seq<char>, Seq<char>>| wrap_html("tr"@, row_cells(fv, m)),
    );
    let headers = render_header(fields);
    let mut values = String::new();
    let mut i: usize = 0;
    while i < rows.len()
        invariant
            i <= rows@.len(),
            fv == strings_view(fields@),
            maps == rows@.map_values(|r: Vec<(String, String)>| pairs_map(r@)),
            trs == maps.map_values(
                |m: Map<Seq<char>, Seq<char>>| wrap_html("tr"@, row_cells(fv, m)),
            ),
            forall|i: int| 0 <= i < rows@.len() ==> keys_distinct(#[trigger] rows@[i]@),
            forall|i: int, f: int|
                0 <= i < rows@.len() && 0 <= f < fields@.len() ==> has_key(
                    #[trigger] rows@[i]@,
                    #[trigger] fields@[f]@,
                ),
            values@ == concat(trs.take(i as int)),
        decreases rows.len() - i,
    {
        proof {
            lemma_concat_take(trs, i as int);
        }
        assert(keys_distinct(rows@[i as int]@));
        assert forall|f: int| 0 <= f < fields@.len() implies has_key(rows@[i as int]@, #[trigger] fields@[f]@) by {
            assert(has_key(rows@[i as int]@, fields@[f]@));
        }
        let tr = render_row(fields, &rows[i]);
        values.append(tr.as_str());
        i = i + 1;
    }
    assert(trs.take(rows@.len() as int) =~= trs);
    let mut body = headers;
    body.append(values.as_str());
    wrap("table", body.as_str())
}

/// The HTML table of the items whose compact JSON texts are `rows_json`: a
/// header cell for each field, then one row per item with the JSON text of
/// its value for each field, in the order of the fields. Every item must be
/// a JSON object that has every field.
pub fn to_table(fields: &Vec<String>, rows_json: &Vec<String>) -> (t: String)
    requires
        rows_complete(strings_view(fields@), rows_json@),
    ensures
        t@ == table_html(
            strings_view(fields@),
            rows_json@.map_values(|r: String| json_object_members(r@).unwrap()),
        ),
{
    let ghost fv = strings_view(fields@);
    let mut rows: Vec<Vec<(String, String)>> = Vec::new();
    let mut i: usize = 0;
    while i < rows_json.len()
        invariant
            i <= rows_json@.len(),
            fv == strings_view(fields@),
            rows_complete(fv, rows_json@),
            rows@.len() == i,
            forall|k: int| 0 <= k < i ==> lists_members(
                #[trigger] rows@[k]@,
                json_object_members(rows_json@[k]@).unwrap(),
            ),
        decreases rows_json.len() - i,
    {
        let parsed = parse_json_object(rows_json[i].as_str());
        assert(json_object_members(rows_json@[i as int]@) is Some);
        match parsed {
            None => {
                assert(false);
            },
            Some(row) => {
                rows.push(row);
            },
        }
        i = i + 1;
    }
    proof {
        assert forall|k: int, f: int|
            0 <= k < rows@.len() && 0 <= f < fields@.len() implies has_key(
            #[trigger] rows@[k]@,
            #[trigger] fields@[f]@,
        ) by {
            let m = json_object_members(rows_json@[k]@).unwrap();
            assert(json_object_members(rows_json@[k]@) is Some);
            assert(fv[f] == fields@[f]@);
            assert(m.dom().contains(fv[f]));
        }
    }
    let t = render_table(fields, &rows);
    proof {
        let maps = rows@.map_values(|r: Vec<(String, String)>| pairs_map(r@));
        let named = rows_json@.map_values(|r: String| json_object_members(r@).unwrap());
        assert forall|k: int| 0 <= k < maps.len() implies maps[k] == named[k] by {
            lemma_lists_members_is_pairs_map(rows@[k]@, json_object_members(rows_json@[k]@).unwrap());
        }
        assert(maps =~= named);
    }
    t
}

/// The table of `to_table` when every item is a JSON object that has every
/// field; `None` when an item is not a JSON object or lacks one of the fields.
pub fn try_to_table(fields: &Vec<String>, rows_json: &Vec<String>) -> (t: Option<String>)
    ensures
        t is Some <==> rows_complete(strings_view(fields@), rows_json@),
        t matches Some(t) ==> t@ == table_html(
            strings_view(fields@),
            rows_json@.map_values(|r: String| json_object_members(r@).unwrap()),
        ),
{
    let ghost fv = strings_view(fields@);
    let mut i: usize = 0;
    while i < rows_json.len()
        invariant
            i <= rows_json@.len(),
            fv == strings_view(fields@),
            forall|k: int|
                0 <= k < i ==> match #[trigger] json_object_members(rows_json@[k]@) {
                    Some(m) => forall|f: int| 0 <= f < fv.len() ==> m.dom().contains(fv[f]),
                    None => false,
                },
        decreases rows_json.len() - i,
    {
        let parsed = parse_json_object(rows_json[i].as_str());
        match parsed {
            None => {
                assert(!rows_complete(fv, rows_json@)) by {
                    assert(json_object_members(rows_json@[i as int]@) is None);
                }
                return None;
            },
            Some(row) => {
                let ghost m = json_object_members(rows_json@[i as int]@).unwrap();
                let mut f: usize = 0;
                while f < fields.len()
                    invariant
                        f <= fields@.len(),
                        i < rows_json@.len(),
                        fv == strings_view(fields@),
                        m == json_object_members(rows_json@[i as int]@).unwrap(),
                        json_object_members(rows_json@[i as int]@) is Some,
                        lists_members(row@, m),
                        forall|g: int| 0 <= g < f ==> m.dom().contains(#[trigger] fv[g]),
                    decreases fields.len() - f,
                {
                    match find_member(&row, &fields[f]) {
                        Some(j) => {
                            assert(fv[f as int] == fields@[f as int]@);
                            assert(row@[j as int].0@ == fields@[f as int]@);
                            assert(has_key(row@, fields@[f as int]@));
                        },
                        None => {
                            assert(!rows_complete(fv, rows_json@)) by {
                                assert(fv[f as int] == fields@[f as int]@);
                                assert(!m.dom().contains(fv[f as int]));
                            }
                            return None;
                        },
                    }
                    f = f + 1;
                }
            },
        }
        i = i + 1;
    }
    Some(to_table(fields, rows_json))
}

} // verus!
