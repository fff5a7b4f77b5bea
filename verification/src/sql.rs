//! The `users` table: the `User` row and the SQL text written for it.

use vstd::prelude::*;
use vstd::string::*;
use crate::text::{int_decimal, i64_to_string};

verus! {

/// The items of `items` joined with `sep` between neighbours.
pub open spec fn join(items: Seq<Seq<char>>, sep: Seq<char>) -> Seq<char>
    decreases items.len(),
{
    if items.len() == 0 {
        seq![]
    } else if items.len() == 1 {
        items[0]
    } else {
        join(items.drop_last(), sep) + sep + items.last()
    }
}

/// A column whose value text is not empty.
pub open spec fn column_present() -> spec_fn((Seq<char>, Seq<char>)) -> bool {
    |c: (Seq<char>, Seq<char>)| c.1.len() > 0
}

/// The text of an `INSERT` of the given (column, value) pairs into `table`:
/// columns with an empty value are left out,
/// `INSERT INTO {table} ({columns}) VALUES ({values});`, both lists joined with `", "`.
pub open spec fn insert_sql_text(table: Seq<char>, columns: Seq<(Seq<char>, Seq<char>)>) -> Seq<char> {
    let kept = columns.filter(column_present());
    "INSERT INTO "@ + table + " ("@ + join(kept.map_values(|c: (Seq<char>, Seq<char>)| c.0), ", "@)
        + ") VALUES ("@ + join(kept.map_values(|c: (Seq<char>, Seq<char>)| c.1), ", "@) + ");"@
}

/// The (column, value) pairs as text.
pub open spec fn columns_text(values: Seq<(&str, String)>) -> Seq<(Seq<char>, Seq<char>)> {
    values.map_values(|p: (&str, String)| (p.0@, p.1@))
}

proof fn lemma_join_push(items: Seq<Seq<char>>, x: Seq<char>, sep: Seq<char>)
    ensures
        join(items.push(x), sep) == if items.len() == 0 {
            x
        } else {
            join(items, sep) + sep + x
        },
{
    assert(items.push(x).drop_last() =~= items);
    if items.len() == 0 {
        assert(items.push(x)[0] == x);
    }
}

/// The SQL text that inserts the given (column, value) pairs into `table`,
/// leaving out every column whose value is empty.
pub fn into_insert_sql(table: &str, values: Vec<(&str, String)>) -> (res: String)
    ensures
        res@ == insert_sql_text(table@, columns_text(values@)),
{
    let ghost all = columns_text(values@);
    let ghost keys = |c: (Seq<char>, Seq<char>)| c.0;
    let ghost vals = |c: (Seq<char>, Seq<char>)| c.1;
    let mut fields = String::new();
    let mut texts = String::new();
    let mut count: usize = 0;
    let mut i: usize = 0;
    while i < values.len()
        invariant
            i <= values.len(),
            all == columns_text(values@),
            keys == (|c: (Seq<char>, Seq<char>)| c.0),
            vals == (|c: (Seq<char>, Seq<char>)| c.1),
            count == all.take(i as int).filter(column_present()).len(),
            fields@ == join(all.take(i as int).filter(column_present()).map_values(keys), ", "@),
            texts@ == join(all.take(i as int).filter(column_present()).map_values(vals), ", "@),
        decreases values.len() - i,
    {
        let ghost kept = all.take(i as int).filter(column_present());
        let key: &str = values[i].0;
        let value: &str = values[i].1.as_str();
        assert(all[i as int] == (key@, value@));
        proof {
            reveal_with_fuel(Seq::filter, 1);
            assert(all.take(i + 1).drop_last() =~= all.take(i as int));
            assert(all.take(i + 1).last() == all[i as int]);
        }
        if !value.is_empty() {
            if count > 0 {
                fields.append(", ");
                texts.append(", ");
            }
            fields.append(key);
            texts.append(value);
            count = count + 1;
            proof {
                let next = kept.push(all[i as int]);
                assert(all.take(i + 1).filter(column_present()) == next);
                assert(next.map_values(keys) =~= kept.map_values(keys).push(key@));
                assert(next.map_values(vals) =~= kept.map_values(vals).push(value@));
                lemma_join_push(kept.map_values(keys), key@, ", "@);
                lemma_join_push(kept.map_values(vals), value@, ", "@);
            }
        } else {
            assert(all.take(i + 1).filter(column_present()) == kept);
        }
        i = i + 1;
    }
    assert(all.take(i as int) =~= all);
    let mut sql = String::from_str("INSERT INTO ");
    sql.append(table);
    sql.append(" (");
    sql.append(fields.as_str());
    sql.append(") VALUES (");
    sql.append(texts.as_str());
    sql.append(");");
    sql
}

/// A row of the `users` table.
pub struct User {
    pub id: i64,
    pub name: String,
    pub status: String,
    pub description: String,
}

impl Default for User {
    /// The empty row: id 0 and empty texts.
    fn default() -> (res: Self)
        ensures
            res.id == 0,
            res.name@ == Seq::<char>::empty(),
            res.status@ == Seq::<char>::empty(),
            res.description@ == Seq::<char>::empty(),
    {
        User { id: 0, name: String::new(), status: String::new(), description: String::new() }
    }
}

/// The text of a row's `INSERT`: its id, name, status and description columns,
/// those with an empty value left out.
pub open spec fn user_insert_sql_text(user: User) -> Seq<char> {
    insert_sql_text(
        "users"@,
        seq![
            ("id"@, int_decimal(user.id as int)),
            ("name"@, user.name@),
            ("status"@, user.status@),
            ("description"@, user.description@),
        ],
    )
}

/// The part of an `INSERT`'s lists that an optional column adds: `", "` and
/// the text where the value is not empty, nothing otherwise.
pub open spec fn listed_if_present(value: Seq<char>, text: Seq<char>) -> Seq<char> {
    if value.len() > 0 {
        ", "@ + text
    } else {
        seq![]
    }
}

/// Law: a row's `INSERT` always lists its id first, then, in this order, its
/// name, status and description columns, each one exactly when its value is
/// not empty, with that value at the same place in the `VALUES` list.
pub proof fn user_insert_lists_present_columns(user: User)
    ensures
        user_insert_sql_text(user) == "INSERT INTO users (id"@ + listed_if_present(user.name@, "name"@)
            + listed_if_present(user.status@, "status"@) + listed_if_present(
            user.description@,
            "description"@,
        ) + ") VALUES ("@ + int_decimal(user.id as int) + listed_if_present(user.name@, user.name@)
            + listed_if_present(user.status@, user.status@) + listed_if_present(
            user.description@,
            user.description@,
        ) + ");"@,
{
    let id = ("id"@, int_decimal(user.id as int));
    let name = ("name"@, user.name@);
    let status = ("status"@, user.status@);
    let desc = ("description"@, user.description@);
    let cols = seq![id, name, status, desc];
    assert(int_decimal(user.id as int).len() > 0);
    reveal_with_fuel(Seq::filter, 1);
    let p0: Seq<(Seq<char>, Seq<char>)> = seq![];
    assert(seq![id] =~= p0.push(id));
    assert(p0.filter(column_present()) =~= p0);
    assert(seq![id].filter(column_present()) =~= seq![id]);
    assert(seq![id].map_values(|c: (Seq<char>, Seq<char>)| c.0) =~= seq!["id"@]);
    assert(seq![id].map_values(|c: (Seq<char>, Seq<char>)| c.1) =~= seq![id.1]);
    lemma_insert_step(seq![id], name, "id"@, id.1);
    assert(seq![id].push(name) =~= seq![id, name]);
    lemma_insert_step(seq![id, name], status, "id"@ + listed_if_present(user.name@, "name"@), id.1
        + listed_if_present(user.name@, user.name@));
    assert(seq![id, name].push(status) =~= seq![id, name, status]);
    lemma_insert_step(
        seq![id, name, status],
        desc,
        "id"@ + listed_if_present(user.name@, "name"@) + listed_if_present(user.status@, "status"@),
        id.1 + listed_if_present(user.name@, user.name@) + listed_if_present(user.status@, user.status@),
    );
    assert(seq![id, name, status].push(desc) =~= cols);
    let kept = cols.filter(column_present());
    let ct = join(kept.map_values(|c: (Seq<char>, Seq<char>)| c.0), ", "@);
    let vt = join(kept.map_values(|c: (Seq<char>, Seq<char>)| c.1), ", "@);
    let head = "INSERT INTO "@ + "users"@ + " ("@;
    assert(user_insert_sql_text(user) == head + ct + ") VALUES ("@ + vt + ");"@);
    assert(head + "id"@ =~= "INSERT INTO users (id"@) by {
        reveal_strlit("INSERT INTO ");
        reveal_strlit("users");
        reveal_strlit(" (");
        reveal_strlit("id");
        reveal_strlit("INSERT INTO users (id");
    }
    lemma_concat_regroup(
        head,
        "id"@,
        listed_if_present(user.name@, "name"@),
        listed_if_present(user.status@, "status"@),
        listed_if_present(user.description@, "description"@),
        ") VALUES ("@,
        id.1,
        listed_if_present(user.name@, user.name@),
        listed_if_present(user.status@, user.status@),
        listed_if_present(user.description@, user.description@),
        ");"@,
    );
}

proof fn lemma_concat_regroup(
    h: Seq<char>,
    i: Seq<char>,
    a1: Seq<char>,
    a2: Seq<char>,
    a3: Seq<char>,
    m: Seq<char>,
    d: Seq<char>,
    b1: Seq<char>,
    b2: Seq<char>,
    b3: Seq<char>,
    e: Seq<char>,
)
    ensures
        h + (i + a1 + a2 + a3) + m + (d + b1 + b2 + b3) + e == (h + i) + a1 + a2 + a3 + m + d + b1 + b2
            + b3 + e,
{
    assert(h + (i + a1 + a2 + a3) + m + (d + b1 + b2 + b3) + e =~= (h + i) + a1 + a2 + a3 + m + d + b1
        + b2 + b3 + e);
}

proof fn lemma_insert_step(
    prefix: Seq<(Seq<char>, Seq<char>)>,
    c: (Seq<char>, Seq<char>),
    names: Seq<char>,
    values: Seq<char>,
)
    requires
        prefix.filter(column_present()).len() > 0,
        join(prefix.filter(column_present()).map_values(|c: (Seq<char>, Seq<char>)| c.0), ", "@) == names,
        join(prefix.filter(column_present()).map_values(|c: (Seq<char>, Seq<char>)| c.1), ", "@) == values,
    ensures
        prefix.push(c).filter(column_present()).len() > 0,
        join(prefix.push(c).filter(column_present()).map_values(|c: (Seq<char>, Seq<char>)| c.0), ", "@)
            == names + listed_if_present(c.1, c.0),
        join(prefix.push(c).filter(column_present()).map_values(|c: (Seq<char>, Seq<char>)| c.1), ", "@)
            == values + listed_if_present(c.1, c.1),
{
    let kept = prefix.filter(column_present());
    reveal_with_fuel(Seq::filter, 1);
    assert(prefix.push(c).drop_last() =~= prefix);
    assert(prefix.push(c).last() == c);
    if c.1.len() > 0 {
        assert(prefix.push(c).filter(column_present()) == kept.push(c));
        assert(kept.push(c).map_values(|c: (Seq<char>, Seq<char>)| c.0) =~= kept.map_values(
            |c: (Seq<char>, Seq<char>)| c.0,
        ).push(c.0));
        assert(kept.push(c).map_values(|c: (Seq<char>, Seq<char>)| c.1) =~= kept.map_values(
            |c: (Seq<char>, Seq<char>)| c.1,
        ).push(c.1));
        lemma_join_push(kept.map_values(|c: (Seq<char>, Seq<char>)| c.0), c.0, ", "@);
        lemma_join_push(kept.map_values(|c: (Seq<char>, Seq<char>)| c.1), c.1, ", "@);
        assert(names + listed_if_present(c.1, c.0) =~= names + ", "@ + c.0);
        assert(values + listed_if_present(c.1, c.1) =~= values + ", "@ + c.1);
    } else {
        assert(prefix.push(c).filter(column_present()) == kept);
        assert(names + listed_if_present(c.1, c.0) =~= names);
        assert(values + listed_if_present(c.1, c.1) =~= values);
    }
}

impl User {
    /// A row read back from the table: each field from its column where the
    /// column held a value of the field's type, the default otherwise.
    pub fn from_row(
        id: Option<i64>,
        name: Option<String>,
        status: Option<String>,
        description: Option<String>,
    ) -> (res: Self)
        ensures
            res.id == (match id {
                Some(v) => v,
                None => 0,
            }),
            res.name@ == (match name {
                Some(v) => v@,
                None => Seq::<char>::empty(),
            }),
            res.status@ == (match status {
                Some(v) => v@,
                None => Seq::<char>::empty(),
            }),
            res.description@ == (match description {
                Some(v) => v@,
                None => Seq::<char>::empty(),
            }),
    {
        let mut user = User::default();
        if let Some(v) = id {
            user.id = v;
        }
        if let Some(v) = name {
            user.name = v;
        }
        if let Some(v) = status {
            user.status = v;
        }
        if let Some(v) = description {
            user.description = v;
        }
        user
    }

    /// The SQL text that inserts this row into `users`.
    pub fn insert_sql(&self) -> (res: String)
        ensures
            res@ == user_insert_sql_text(*self),
            res@ == "INSERT INTO users (id"@ + listed_if_present(self.name@, "name"@)
                + listed_if_present(self.status@, "status"@) + listed_if_present(
                self.description@,
                "description"@,
            ) + ") VALUES ("@ + int_decimal(self.id as int) + listed_if_present(self.name@, self.name@)
                + listed_if_present(self.status@, self.status@) + listed_if_present(
                self.description@,
                self.description@,
            ) + ");"@,
    {
        proof {
            user_insert_lists_present_columns(*self);
        }
        let id_text = i64_to_string(self.id);
        let mut values: Vec<(&str, String)> = Vec::new();
        values.push(("id", id_text));
        values.push(("name", self.name.clone()));
        values.push(("status", self.status.clone()));
        values.push(("description", self.description.clone()));
        let ghost cols = columns_text(values@);
        let res = into_insert_sql("users", values);
        assert(cols =~= seq![
            ("id"@, int_decimal(self.id as int)),
            ("name"@, self.name@),
            ("status"@, self.status@),
            ("description"@, self.description@),
        ]);
        res
    }
}

/// The query that reads the row with id `id`: `select * from users where id = {id}`.
pub fn fetch_by_id_sql(id: i64) -> (res: String)
    ensures
        res@ == "select * from users where id = "@ + int_decimal(id as int),
{
    let mut sql = String::from_str("select * from users where id = ");
    let id_text = i64_to_string(id);
    sql.append(id_text.as_str());
    sql
}

/// The benchmark's query for the row with id `id`: `SELECT * FROM users WHERE id = {id};`.
pub fn user_view_sql(id: i64) -> (res: String)
    ensures
        res@ == "SELECT * FROM users WHERE id = "@ + int_decimal(id as int) + ";"@,
{
    let mut sql = String::from_str("SELECT * FROM users WHERE id = ");
    let id_text = i64_to_string(id);
    sql.append(id_text.as_str());
    sql.append(";");
    sql
}


/// Law: a column with an empty value never changes the `INSERT` text, wherever
/// it stands among the columns.
pub proof fn empty_column_changes_nothing(
    table: Seq<char>,
    columns: Seq<(Seq<char>, Seq<char>)>,
    name: Seq<char>,
    k: int,
)
    requires
        0 <= k <= columns.len(),
    ensures
        insert_sql_text(table, columns.insert(k, (name, Seq::<char>::empty())))
            == insert_sql_text(table, columns),
{
    let x = (name, Seq::<char>::empty());
    let pred = column_present();
    let front = columns.take(k);
    let back = columns.skip(k);
    assert(columns.insert(k, x) =~= front.push(x) + back);
    assert(columns =~= front + back);
    Seq::filter_distributes_over_add(front.push(x), back, pred);
    Seq::filter_distributes_over_add(front, back, pred);
    reveal_with_fuel(Seq::filter, 1);
    assert(front.push(x).drop_last() =~= front);
    assert(front.push(x).filter(pred) == front.filter(pred));
}
} // verus!
