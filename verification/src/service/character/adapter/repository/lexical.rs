//! The statements of the character repository, and its table schema, are
//! lexically safe scripts: proofs by scanning their texts piece by piece.
use crate::service::character::adapter::repository::glue::{
    filter_wheres, find_count_state, find_records_state, gender_code, insert_state, profile_state,
    skin_code,
};
use crate::service::character::adapter::repository::scan::{
    conflict, fits, lemma_decimal, lemma_digits, lemma_fixed, lemma_literal_body,
    lemma_quoted, lemma_scan_concat, lexically_safe, max_letters, max_opens, max_signs,
    no_semicolon, scan_from, scan_start, scan_text, ScanMode, ScanState,
};
use crate::service::character::adapter::repository::sql::{
    eq_condition, escape, join, keyword_condition, keyword_target, quoted, rendered, script_of,
    where_text, BuilderState,
};
use crate::service::character::port::repository::FindParamsView;
use crate::text::{decimal_int, decimal_nat, lowercase};
use vstd::prelude::*;

verus! {

/// The scan at the start of a statement that follows a line break.
pub open spec fn line_start() -> ScanState {
    ScanState { prev: '\n', ..scan_start() }
}

/// Where a statement of a script begins to be scanned.
pub open spec fn fresh(st: ScanState) -> bool {
    st == scan_start() || st == line_start()
}

/// A scan outside literals whose last character starts no two-character token
/// with what the statements write next.
pub open spec fn calm(st: ScanState) -> bool {
    &&& fits(st)
    &&& st.prev != '-'
    &&& st.prev != '/'
    &&& st.prev != '"'
    &&& st.prev != '<'
    &&& st.prev != '>'
}

/// A fixed text without `;` or a leading quote or sign, whose scan from the
/// start ends outside literals after `prev` with these counts.
pub open spec fn lit_effect(t: Seq<char>, prev: char, letters: nat, opens: nat) -> bool {
    &&& t.len() > 0
    &&& t[0] != '\'' && t[0] != '"' && t[0] != '-' && t[0] != '<' && t[0] != '>'
    &&& no_semicolon(t, t.len())
    &&& scan_text(scan_start(), t) == (ScanState { prev, letters, opens, ..scan_start() })
}

proof fn lemma_piece(st: ScanState, t: Seq<char>, prev: char, letters: nat, opens: nat)
    requires
        lit_effect(t, prev, letters, opens),
        calm(st),
        st.letters + letters <= max_letters(),
        st.opens + opens <= max_opens(),
    ensures
        scan_text(st, t) == (ScanState {
            prev,
            letters: st.letters + letters,
            opens: st.opens + opens,
            ..st
        }),
{
    assert(!conflict(st.prev, t[0]));
    lemma_fixed(st, t);
}

proof fn lemma_lits_short()
    ensures
        lit_effect("*"@, '*', 0, 0),
        lit_effect(" = "@, ' ', 0, 0),
        lit_effect(", "@, ' ', 0, 0),
        lit_effect(" ("@, '(', 0, 1),
        lit_effect("id"@, 'd', 2, 0),
        lit_effect(" AND "@, ' ', 3, 0),
        lit_effect(" FROM "@, ' ', 4, 0),
        lit_effect(" WHERE "@, ' ', 5, 0),
        lit_effect(" LIMIT "@, ' ', 5, 0),
        lit_effect(" OFFSET "@, ' ', 6, 0),
        lit_effect("SELECT "@, ' ', 6, 0),
        lit_effect("COUNT("@, '(', 5, 1),
        lit_effect(") AS "@, ' ', 2, 0),
        lit_effect("character"@, 'r', 9, 0),
        lit_effect(") VALUES "@, ' ', 6, 0),
        lit_effect("\n    )"@, ')', 0, 0),
{
    reveal_strlit("*");
    reveal_strlit(" = ");
    reveal_strlit(", ");
    reveal_strlit(" (");
    reveal_strlit("id");
    reveal_strlit(" AND ");
    reveal_strlit(" FROM ");
    reveal_strlit(" WHERE ");
    reveal_strlit(" LIMIT ");
    reveal_strlit(" OFFSET ");
    reveal_strlit("SELECT ");
    reveal_strlit("COUNT(");
    reveal_strlit(") AS ");
    reveal_strlit("character");
    reveal_strlit(") VALUES ");
    reveal_strlit("\n    )");
    reveal_with_fuel(scan_from, 10);
    reveal_with_fuel(no_semicolon, 10);
}

proof fn lemma_lits_names()
    ensures
        lit_effect("profile_id"@, 'd', 9, 0),
        lit_effect("profile_name"@, 'e', 11, 0),
        lit_effect("total_records"@, 's', 12, 0),
        lit_effect("INSERT INTO "@, ' ', 10, 0),
        lit_effect("profile_gender"@, 'r', 13, 0),
        lit_effect("appearance_skin"@, 'n', 14, 0),
{
    reveal_strlit("profile_id");
    reveal_strlit("profile_name");
    reveal_strlit("total_records");
    reveal_strlit("INSERT INTO ");
    reveal_strlit("profile_gender");
    reveal_strlit("appearance_skin");
    reveal_with_fuel(scan_from, 16);
    reveal_with_fuel(no_semicolon, 16);
}

proof fn lemma_lit_target()
    ensures
        keyword_target() == "LOWER(profile_name)"@ + " || ' ' || "@ + "LOWER(profile_id)"@,
        lit_effect("LOWER(profile_name)"@, ')', 16, 1),
        lit_effect(" || ' ' || "@, ' ', 0, 0),
        lit_effect("LOWER(profile_id)"@, ')', 14, 1),
{
    reveal_strlit("LOWER(profile_name) || ' ' || LOWER(profile_id)");
    reveal_strlit("LOWER(profile_name)");
    reveal_strlit(" || ' ' || ");
    reveal_strlit("LOWER(profile_id)");
    assert(keyword_target() =~= "LOWER(profile_name)"@ + " || ' ' || "@ + "LOWER(profile_id)"@);
    reveal_with_fuel(scan_from, 20);
    reveal_with_fuel(no_semicolon, 20);
}

proof fn lemma_lit_like()
    ensures
        no_semicolon(" LIKE '%"@, 8),
        " LIKE '%"@.len() == 8,
        " LIKE '%"@[0] == ' ',
        scan_text(scan_start(), " LIKE '%"@) == (ScanState {
            mode: ScanMode::InLiteral,
            prev: '\'',
            letters: 4,
            ..scan_start()
        }),
{
    reveal_strlit(" LIKE '%");
    reveal_with_fuel(scan_from, 9);
    reveal_with_fuel(no_semicolon, 9);
}

/// A `;` ends the statement: the scan starts afresh.
proof fn lemma_end(st: ScanState)
    requires
        fits(st),
    ensures
        scan_text(st, ";"@) == scan_start(),
{
    reveal_strlit(";");
    reveal_with_fuel(scan_from, 2);
}

/// A condition that a known column equals a string literal.
pub open spec fn is_eq_condition(w: Seq<char>) -> bool {
    exists|name: Seq<char>, v: Seq<char>|
        (name == "profile_id"@ || name == "profile_name"@) && w == #[trigger] eq_condition(
            name,
            quoted(v),
        )
}

/// The keyword condition.
pub open spec fn is_keyword_condition(w: Seq<char>) -> bool {
    exists|x: Seq<char>| w == #[trigger] keyword_condition(x)
}

proof fn lemma_scan_eq_condition(st: ScanState, name: Seq<char>, v: Seq<char>)
    requires
        calm(st),
        name == "profile_id"@ || name == "profile_name"@,
        st.letters + 11 <= max_letters(),
    ensures
        calm(scan_text(st, eq_condition(name, quoted(v)))),
        scan_text(st, eq_condition(name, quoted(v))).prev == '\'',
        scan_text(st, eq_condition(name, quoted(v))).letters <= st.letters + 11,
        scan_text(st, eq_condition(name, quoted(v))).opens == st.opens,
        scan_text(st, eq_condition(name, quoted(v))).signs == st.signs,
{
    lemma_lits_short();
    lemma_lits_names();
    if name == "profile_id"@ {
        lemma_piece(st, name, 'd', 9, 0);
    } else {
        lemma_piece(st, name, 'e', 11, 0);
    }
    let s1 = scan_text(st, name);
    lemma_piece(s1, " = "@, ' ', 0, 0);
    let s2 = scan_text(s1, " = "@);
    lemma_quoted(s2, v);
    lemma_scan_concat(st, name, " = "@);
    lemma_scan_concat(st, name + " = "@, quoted(v));
}

proof fn lemma_scan_keyword_condition(st: ScanState, x: Seq<char>)
    requires
        calm(st),
        st.letters + 34 <= max_letters(),
        st.opens + 2 <= max_opens(),
    ensures
        calm(scan_text(st, keyword_condition(x))),
        scan_text(st, keyword_condition(x)).prev == '\'',
        scan_text(st, keyword_condition(x)).letters <= st.letters + 34,
        scan_text(st, keyword_condition(x)).opens <= st.opens + 2,
        scan_text(st, keyword_condition(x)).signs == st.signs,
{
    lemma_lit_target();
    lemma_lit_like();
    let t = keyword_target();
    let like = " LIKE '%"@;
    let ta = "LOWER(profile_name)"@;
    let tb = " || ' ' || "@;
    let tc = "LOWER(profile_id)"@;
    lemma_piece(st, ta, ')', 16, 1);
    let r1 = scan_text(st, ta);
    lemma_piece(r1, tb, ' ', 0, 0);
    let r2 = scan_text(r1, tb);
    lemma_piece(r2, tc, ')', 14, 1);
    lemma_scan_concat(st, ta, tb);
    lemma_scan_concat(st, ta + tb, tc);
    let s1 = scan_text(st, t);
    assert(s1 == ScanState { prev: ')', letters: st.letters + 30, opens: st.opens + 2, ..st });
    lemma_fixed(s1, like);
    let s2 = scan_text(s1, like);
    assert(s2.mode is InLiteral && s2.prev == '\'' && s2.ok);
    lemma_literal_body(s2, x);
    reveal_strlit("%'");
    reveal_with_fuel(scan_from, 3);
    let s4 = scan_text(s2, "%'"@);
    assert(s4 == ScanState { mode: ScanMode::Outside, ..s2 });
    lemma_scan_concat(st, t, like);
    lemma_scan_concat(st, t + like, escape(x));
    lemma_scan_concat(st, t + like + escape(x), "%'"@);
}

/// A condition scans with at most `letters` letters and `opens` brackets:
/// 11 and none for a column equality, 34 and 2 for the keyword condition.
proof fn lemma_scan_condition(st: ScanState, w: Seq<char>, letters: nat, opens: nat)
    requires
        calm(st),
        (is_eq_condition(w) && letters == 11 && opens == 0) || (is_keyword_condition(w)
            && letters == 34 && opens == 2),
        st.letters + letters <= max_letters(),
        st.opens + opens <= max_opens(),
    ensures
        calm(scan_text(st, w)),
        scan_text(st, w).prev == '\'',
        scan_text(st, w).letters <= st.letters + letters,
        scan_text(st, w).opens <= st.opens + opens,
        scan_text(st, w).signs == st.signs,
{
    if is_eq_condition(w) && letters == 11 {
        let (name, v) = choose|name: Seq<char>, v: Seq<char>|
            (name == "profile_id"@ || name == "profile_name"@) && w == #[trigger] eq_condition(
                name,
                quoted(v),
            );
        lemma_scan_eq_condition(st, name, v);
    } else {
        let x = choose|x: Seq<char>| w == #[trigger] keyword_condition(x);
        lemma_scan_keyword_condition(st, x);
    }
}

proof fn lemma_scan_paren_condition(st: ScanState, w: Seq<char>, letters: nat, opens: nat)
    requires
        calm(st),
        (is_eq_condition(w) && letters == 11 && opens == 0) || (is_keyword_condition(w)
            && letters == 34 && opens == 2),
        st.letters + letters <= max_letters(),
        st.opens + opens + 1 <= max_opens(),
    ensures
        calm(scan_text(st, seq!['('] + w + seq![')'])),
        scan_text(st, seq!['('] + w + seq![')']).letters <= st.letters + letters,
        scan_text(st, seq!['('] + w + seq![')']).opens <= st.opens + opens + 1,
        scan_text(st, seq!['('] + w + seq![')']).signs == st.signs,
{
    reveal_with_fuel(scan_from, 2);
    let s1 = scan_text(st, seq!['(']);
    assert(s1 == ScanState { prev: '(', opens: st.opens + 1, ..st });
    lemma_scan_condition(s1, w, letters, opens);
    let s2 = scan_text(s1, w);
    let s3 = scan_text(s2, seq![')']);
    assert(s3 == ScanState { prev: ')', ..s2 });
    lemma_scan_concat(st, seq!['('], w);
    lemma_scan_concat(st, seq!['('] + w, seq![')']);
}

/// Conditions as a search writes them: at most three, the first a column
/// equality or the keyword condition, the others column equalities.
pub open spec fn search_conditions(ws: Seq<Seq<char>>) -> bool {
    &&& ws.len() <= 3
    &&& ws.len() > 0 ==> is_eq_condition(ws[0]) || is_keyword_condition(ws[0])
    &&& forall|i: int| 1 <= i < ws.len() ==> is_eq_condition(#[trigger] ws[i])
}

/// A condition in brackets.
pub open spec fn bracketed(w: Seq<char>) -> Seq<char> {
    seq!['('] + w + seq![')']
}

proof fn lemma_scan_where(st: ScanState, ws: Seq<Seq<char>>)
    requires
        calm(st),
        search_conditions(ws),
        st.letters + 67 <= max_letters(),
        st.opens + 5 <= max_opens(),
    ensures
        calm(scan_text(st, where_text(ws))),
        scan_text(st, where_text(ws)).letters <= st.letters + 67,
        scan_text(st, where_text(ws)).opens <= st.opens + 5,
        scan_text(st, where_text(ws)).signs == st.signs,
{
    lemma_lits_short();
    let sep = " AND "@;
    let wh = " WHERE "@;
    if ws.len() == 0 {
        assert(where_text(ws) == Seq::<char>::empty());
    } else {
        let (l0, o0): (nat, nat) = if is_keyword_condition(ws[0]) { (34, 2) } else { (11, 0) };
        lemma_piece(st, wh, ' ', 5, 0);
        let s1 = scan_text(st, wh);
        if ws.len() == 1 {
            lemma_scan_condition(s1, ws[0], l0, o0);
            lemma_scan_concat(st, wh, ws[0]);
        } else {
            let m = ws.map_values(|w: Seq<char>| seq!['('] + w + seq![')']);
            assert(m[0] == seq!['('] + ws[0] + seq![')']);
            assert(m[1] == seq!['('] + ws[1] + seq![')']);
            assert(is_eq_condition(ws[1]));
            let j2 = m[0] + sep + m[1];
            lemma_scan_paren_condition(s1, ws[0], l0, o0);
            let s2 = scan_text(s1, m[0]);
            lemma_piece(s2, sep, ' ', 3, 0);
            let s3 = scan_text(s2, sep);
            lemma_scan_paren_condition(s3, ws[1], 11, 0);
            let s4 = scan_text(s3, m[1]);
            lemma_scan_concat(s1, m[0], sep);
            lemma_scan_concat(s1, m[0] + sep, m[1]);
            assert(scan_text(s1, j2) == s4);
            if ws.len() == 2 {
                assert(join(m, sep) == j2) by {
                    assert(m.drop_last().len() == 1);
                    assert(m.drop_last()[0] == m[0]);
                    reveal_with_fuel(join, 2);
                }
                lemma_scan_concat(st, wh, j2);
            } else {
                assert(m[2] == seq!['('] + ws[2] + seq![')']);
                assert(is_eq_condition(ws[2]));
                assert(join(m.drop_last(), sep) == j2) by {
                    let d = m.drop_last();
                    assert(d.drop_last().len() == 1);
                    assert(d.drop_last()[0] == m[0]);
                    assert(d.last() == m[1]);
                    reveal_with_fuel(join, 2);
                }
                assert(join(m, sep) == j2 + sep + m[2]) by {
                    reveal_with_fuel(join, 3);
                }
                lemma_piece(s4, sep, ' ', 3, 0);
                let s5 = scan_text(s4, sep);
                lemma_scan_paren_condition(s5, ws[2], 11, 0);
                lemma_scan_concat(s1, j2, sep);
                lemma_scan_concat(s1, j2 + sep, m[2]);
                lemma_scan_concat(st, wh, j2 + sep + m[2]);
            }
        }
    }
}

/// The conditions of a search are written as [`search_conditions`].
proof fn lemma_filter_conditions(params: FindParamsView)
    ensures
        search_conditions(filter_wheres(params)),
{
    let k: Seq<Seq<char>> = match params.keyword {
        Some(k) => if k.len() > 0 {
            seq![keyword_target() + " LIKE '%"@ + escape(lowercase(k)) + "%'"@]
        } else {
            seq![]
        },
        None => seq![],
    };
    let a: Seq<Seq<char>> = match params.profile_id {
        Some(id) => seq!["profile_id"@ + " = "@ + quoted(id)],
        None => seq![],
    };
    let b: Seq<Seq<char>> = match params.profile_name {
        Some(name) => seq!["profile_name"@ + " = "@ + quoted(name)],
        None => seq![],
    };
    let ws = filter_wheres(params);
    assert(ws =~= k + a + b);
    assert forall|i: int| 0 <= i < k.len() implies is_keyword_condition(#[trigger] k[i]) by {
        assert(k[i] == keyword_condition(lowercase(params.keyword->0)));
    }
    assert forall|i: int| 0 <= i < a.len() implies is_eq_condition(#[trigger] a[i]) by {
        assert(a[i] == eq_condition("profile_id"@, quoted(params.profile_id->0)));
    }
    assert forall|i: int| 0 <= i < b.len() implies is_eq_condition(#[trigger] b[i]) by {
        assert(b[i] == eq_condition("profile_name"@, quoted(params.profile_name->0)));
    }
    assert forall|i: int| 0 <= i < ws.len() implies (i == 0 && k.len() == 1
        && is_keyword_condition(#[trigger] ws[i])) || is_eq_condition(ws[i]) by {
        if i < k.len() {
            assert(ws[i] == k[i]);
        } else if i < k.len() + a.len() {
            assert(ws[i] == a[i - k.len()]);
        } else {
            assert(ws[i] == b[i - k.len() - a.len()]);
        }
    }
}

/// Known names as the statements write them.
pub open spec fn name_lit(t: Seq<char>) -> bool {
    exists|p: char, l: nat|
        l <= 15 && p != '-' && p != '/' && p != '"' && p != '<' && p != '>' && #[trigger] lit_effect(
            t,
            p,
            l,
            0,
        )
}

proof fn lemma_scan_names(st: ScanState, names: Seq<Seq<char>>)
    requires
        calm(st),
        names.len() >= 1,
        forall|i: int| 0 <= i < names.len() ==> name_lit(#[trigger] names[i]),
        st.letters + 15 * names.len() <= max_letters(),
    ensures
        calm(scan_text(st, join(names, ", "@))),
        scan_text(st, join(names, ", "@)).letters <= st.letters + 15 * names.len(),
        scan_text(st, join(names, ", "@)).opens == st.opens,
        scan_text(st, join(names, ", "@)).signs == st.signs,
    decreases names.len(),
{
    lemma_lits_short();
    if names.len() == 1 {
        assert(name_lit(names[0]));
        let (p, l) = choose|p: char, l: nat|
            l <= 15 && p != '-' && p != '/' && p != '"' && p != '<' && p != '>'
                && #[trigger] lit_effect(names[0], p, l, 0);
        lemma_piece(st, names[0], p, l, 0);
    } else {
        let init = names.drop_last();
        assert forall|i: int| 0 <= i < init.len() implies name_lit(#[trigger] init[i]) by {
            assert(init[i] == names[i]);
        }
        lemma_scan_names(st, init);
        let s1 = scan_text(st, join(init, ", "@));
        lemma_piece(s1, ", "@, ' ', 0, 0);
        let s2 = scan_text(s1, ", "@);
        let last = names.last();
        assert(name_lit(names[names.len() - 1]));
        let (p, l) = choose|p: char, l: nat|
            l <= 15 && p != '-' && p != '/' && p != '"' && p != '<' && p != '>'
                && #[trigger] lit_effect(last, p, l, 0);
        lemma_piece(s2, last, p, l, 0);
        lemma_scan_concat(st, join(init, ", "@), ", "@);
        lemma_scan_concat(st, join(init, ", "@) + ", "@, last);
    }
}

/// Values as a stored row writes them: string literals and natural numbers.
pub open spec fn value_text(v: Seq<char>) -> bool {
    (exists|x: Seq<char>| v == #[trigger] quoted(x)) || (exists|n: nat| v == #[trigger] decimal_nat(n))
}

proof fn lemma_scan_value(st: ScanState, v: Seq<char>)
    requires
        calm(st),
        st.prev != '\'',
        value_text(v),
    ensures
        calm(scan_text(st, v)),
        scan_text(st, v).letters == st.letters,
        scan_text(st, v).opens == st.opens,
        scan_text(st, v).signs == st.signs,
{
    if exists|x: Seq<char>| v == #[trigger] quoted(x) {
        let x = choose|x: Seq<char>| v == #[trigger] quoted(x);
        lemma_quoted(st, x);
    } else {
        let n = choose|n: nat| v == #[trigger] decimal_nat(n);
        lemma_digits(st, n);
    }
}

proof fn lemma_scan_values(st: ScanState, vals: Seq<Seq<char>>)
    requires
        calm(st),
        st.prev != '\'',
        vals.len() >= 1,
        forall|i: int| 0 <= i < vals.len() ==> value_text(#[trigger] vals[i]),
    ensures
        calm(scan_text(st, join(vals, ", "@))),
        scan_text(st, join(vals, ", "@)).letters == st.letters,
        scan_text(st, join(vals, ", "@)).opens == st.opens,
        scan_text(st, join(vals, ", "@)).signs == st.signs,
    decreases vals.len(),
{
    lemma_lits_short();
    if vals.len() == 1 {
        assert(value_text(vals[0]));
        lemma_scan_value(st, vals[0]);
    } else {
        let init = vals.drop_last();
        assert forall|i: int| 0 <= i < init.len() implies value_text(#[trigger] init[i]) by {
            assert(init[i] == vals[i]);
        }
        lemma_scan_values(st, init);
        let s1 = scan_text(st, join(init, ", "@));
        lemma_piece(s1, ", "@, ' ', 0, 0);
        let s2 = scan_text(s1, ", "@);
        assert(value_text(vals[vals.len() - 1]));
        lemma_scan_value(s2, vals.last());
        lemma_scan_concat(st, join(init, ", "@), ", "@);
        lemma_scan_concat(st, join(init, ", "@) + ", "@, vals.last());
    }
}

/// A statement whose text scans from a fresh start back to a fresh start.
pub open spec fn statement_clean(state: BuilderState) -> bool {
    rendered(state) matches Some(t) && scan_text(scan_start(), t) == scan_start() && scan_text(
        line_start(),
        t,
    ) == scan_start()
}

proof fn lemma_script_fresh(states: Seq<BuilderState>)
    requires
        forall|i: int| 0 <= i < states.len() ==> statement_clean(#[trigger] states[i]),
    ensures
        script_of(states) matches Some(s) && fresh(scan_text(scan_start(), s)),
    decreases states.len(),
{
    if states.len() > 0 {
        let init = states.drop_last();
        assert forall|i: int| 0 <= i < init.len() implies statement_clean(#[trigger] init[i]) by {
            assert(init[i] == states[i]);
        }
        lemma_script_fresh(init);
        assert(statement_clean(states[states.len() - 1]));
        let prefix = script_of(init)->0;
        let t = rendered(states.last())->0;
        lemma_scan_concat(scan_start(), prefix, t);
        lemma_scan_concat(scan_start(), prefix + t, seq![';', '\n']);
        reveal_with_fuel(scan_from, 3);
        assert(scan_text(scan_start(), seq![';', '\n']) == line_start());
    }
}

/// A script of clean statements is lexically safe.
pub proof fn lemma_script_safe(states: Seq<BuilderState>)
    requires
        forall|i: int| 0 <= i < states.len() ==> statement_clean(#[trigger] states[i]),
    ensures
        script_of(states) matches Some(s) && lexically_safe(s),
{
    lemma_script_fresh(states);
}

/// The field counting the records of a search.
pub open spec fn count_text() -> Seq<char> {
    "COUNT("@ + "id"@ + ") AS "@ + "total_records"@
}

/// A limit or offset: absent, or an integer in decimal.
pub open spec fn decimal_bound(b: Option<Seq<char>>) -> bool {
    match b {
        Some(t) => exists|i: int| t == #[trigger] decimal_int(i),
        None => true,
    }
}

proof fn lemma_scan_fields(st: ScanState, fields: Seq<Seq<char>>)
    requires
        calm(st),
        fields == seq!["*"@] || fields == seq![count_text()],
        st.letters + 21 <= max_letters(),
        st.opens + 1 <= max_opens(),
    ensures
        calm(scan_text(st, join(fields, ", "@))),
        scan_text(st, join(fields, ", "@)).letters <= st.letters + 21,
        scan_text(st, join(fields, ", "@)).opens <= st.opens + 1,
        scan_text(st, join(fields, ", "@)).signs == st.signs,
{
    lemma_lits_short();
    lemma_lits_names();
    assert(join(fields, ", "@) == fields[0]);
    if fields == seq!["*"@] {
        lemma_piece(st, "*"@, '*', 0, 0);
    } else {
        let t1 = "COUNT("@;
        let t2 = t1 + "id"@;
        let t3 = t2 + ") AS "@;
        lemma_piece(st, t1, '(', 5, 1);
        let s1 = scan_text(st, t1);
        lemma_piece(s1, "id"@, 'd', 2, 0);
        let s2 = scan_text(s1, "id"@);
        lemma_piece(s2, ") AS "@, ' ', 2, 0);
        let s3 = scan_text(s2, ") AS "@);
        lemma_piece(s3, "total_records"@, 's', 12, 0);
        lemma_scan_concat(st, t1, "id"@);
        lemma_scan_concat(st, t2, ") AS "@);
        lemma_scan_concat(st, t3, "total_records"@);
    }
}

proof fn lemma_scan_bound(st: ScanState, word: Seq<char>, letters: nat, b: Option<Seq<char>>)
    requires
        calm(st),
        lit_effect(word, ' ', letters, 0),
        decimal_bound(b),
        st.letters + letters <= max_letters(),
        st.signs < max_signs(),
    ensures
        ({
            let t: Seq<char> = match b {
                Some(x) => word + x,
                None => seq![],
            };
            &&& calm(scan_text(st, t))
            &&& scan_text(st, t).letters <= st.letters + letters
            &&& scan_text(st, t).opens == st.opens
            &&& scan_text(st, t).signs <= st.signs + 1
        }),
{
    match b {
        Some(x) => {
            let i = choose|i: int| x == #[trigger] decimal_int(i);
            lemma_piece(st, word, ' ', letters, 0);
            let s1 = scan_text(st, word);
            lemma_decimal(s1, i);
            lemma_scan_concat(st, word, x);
        },
        None => {},
    }
}

/// A select on the `character` table, as the repository writes them.
pub open spec fn repository_select(state: BuilderState) -> bool {
    &&& state.kind is Select
    &&& state.table == "character"@
    &&& state.fields == seq!["*"@] || state.fields == seq![count_text()]
    &&& search_conditions(state.wheres)
    &&& decimal_bound(state.limit)
    &&& decimal_bound(state.offset)
}

proof fn lemma_select_scan(state: BuilderState, st0: ScanState)
    requires
        fresh(st0),
        repository_select(state),
    ensures
        rendered(state) matches Some(t) && scan_text(st0, t) == scan_start(),
{
    lemma_lits_short();
    let a = "SELECT "@;
    let f = join(state.fields, ", "@);
    let w = where_text(state.wheres);
    let lim: Seq<char> = match state.limit {
        Some(l) => " LIMIT "@ + l,
        None => seq![],
    };
    let off: Seq<char> = match state.offset {
        Some(o) => " OFFSET "@ + o,
        None => seq![],
    };
    let t1 = a + f;
    let t2 = t1 + " FROM "@;
    let t3 = t2 + state.table;
    let t4 = t3 + w;
    let t5 = t4 + lim;
    let t6 = t5 + off;
    let t7 = t6 + ";"@;
    assert(state.fields.len() != 0);
    assert(rendered(state) == Some(t7));
    lemma_piece(st0, a, ' ', 6, 0);
    let s1 = scan_text(st0, a);
    lemma_scan_fields(s1, state.fields);
    let s2 = scan_text(s1, f);
    lemma_piece(s2, " FROM "@, ' ', 4, 0);
    let s3 = scan_text(s2, " FROM "@);
    lemma_piece(s3, state.table, 'r', 9, 0);
    let s4 = scan_text(s3, state.table);
    lemma_scan_where(s4, state.wheres);
    let s5 = scan_text(s4, w);
    lemma_scan_bound(s5, " LIMIT "@, 5, state.limit);
    let s6 = scan_text(s5, lim);
    lemma_scan_bound(s6, " OFFSET "@, 6, state.offset);
    let s7 = scan_text(s6, off);
    lemma_end(s7);
    lemma_scan_concat(st0, a, f);
    lemma_scan_concat(st0, t1, " FROM "@);
    lemma_scan_concat(st0, t2, state.table);
    lemma_scan_concat(st0, t3, w);
    lemma_scan_concat(st0, t4, lim);
    lemma_scan_concat(st0, t5, off);
    lemma_scan_concat(st0, t6, ";"@);
}

proof fn lemma_select_clean(state: BuilderState)
    requires
        repository_select(state),
    ensures
        statement_clean(state),
{
    lemma_select_scan(state, scan_start());
    lemma_select_scan(state, line_start());
}

/// Both statements of a search scan cleanly.
pub proof fn lemma_find_clean(params: FindParamsView)
    ensures
        statement_clean(find_records_state(params)),
        statement_clean(find_count_state(params)),
{
    lemma_filter_conditions(params);
    let r = find_records_state(params);
    let c = find_count_state(params);
    assert(decimal_bound(r.offset)) by {
        assert(r.offset->0 == decimal_int(params.skip as int));
    }
    assert(decimal_bound(r.limit)) by {
        if params.limit is Some {
            assert(r.limit->0 == decimal_int(params.limit->0 as int));
        }
    }
    assert(c.fields == seq![count_text()]);
    lemma_select_clean(r);
    lemma_select_clean(c);
}

/// The query reading characters by profile identifier scans cleanly.
pub proof fn lemma_profile_clean(profile_id: Seq<char>)
    ensures
        statement_clean(profile_state(profile_id)),
{
    let st = profile_state(profile_id);
    assert(st.wheres[0] == eq_condition("profile_id"@, quoted(profile_id)));
    assert(is_eq_condition(st.wheres[0]));
    lemma_select_clean(st);
}

proof fn lemma_insert_scan(c: crate::service::character::domain::CharacterView, st0: ScanState)
    requires
        fresh(st0),
    ensures
        rendered(insert_state(c)) matches Some(t) && scan_text(st0, t) == scan_start(),
{
    lemma_lits_short();
    lemma_lits_names();
    let state = insert_state(c);
    let g = gender_code(c.profile.gender);
    let k = skin_code(c.appearance.skin);
    let vals = seq![
        quoted(c.id),
        quoted(c.profile.id),
        quoted(c.profile.name),
        decimal_int(g as int),
        decimal_int(k as int),
    ];
    assert(decimal_int(g as int) == decimal_nat(g as nat));
    assert(decimal_int(k as int) == decimal_nat(k as nat));
    assert forall|i: int| 0 <= i < vals.len() implies value_text(#[trigger] vals[i]) by {
        if i == 0 {
            assert(vals[i] == quoted(c.id));
        } else if i == 1 {
            assert(vals[i] == quoted(c.profile.id));
        } else if i == 2 {
            assert(vals[i] == quoted(c.profile.name));
        } else if i == 3 {
            assert(vals[i] == decimal_nat(g as nat));
        } else {
            assert(vals[i] == decimal_nat(k as nat));
        }
    }
    let row = seq!['('] + join(vals, ", "@) + seq![')'];
    assert(state.values == seq![row]);
    assert(join(state.values, ", "@) == row);
    assert forall|i: int| 0 <= i < state.fields.len() implies name_lit(#[trigger] state.fields[i]) by {
    }
    let t1 = "INSERT INTO "@ + state.table;
    let t2 = t1 + " ("@;
    let t3 = t2 + join(state.fields, ", "@);
    let t4 = t3 + ") VALUES "@;
    let t5 = t4 + row;
    let t6 = t5 + ";"@;
    assert(rendered(state) == Some(t6));
    lemma_piece(st0, "INSERT INTO "@, ' ', 10, 0);
    let s1 = scan_text(st0, "INSERT INTO "@);
    lemma_piece(s1, state.table, 'r', 9, 0);
    let s2 = scan_text(s1, state.table);
    lemma_piece(s2, " ("@, '(', 0, 1);
    let s3 = scan_text(s2, " ("@);
    lemma_scan_names(s3, state.fields);
    let s4 = scan_text(s3, join(state.fields, ", "@));
    lemma_piece(s4, ") VALUES "@, ' ', 6, 0);
    let s5 = scan_text(s4, ") VALUES "@);
    reveal_with_fuel(scan_from, 2);
    let r1 = scan_text(s5, seq!['(']);
    assert(r1 == ScanState { prev: '(', opens: s5.opens + 1, ..s5 });
    lemma_scan_values(r1, vals);
    let r2 = scan_text(r1, join(vals, ", "@));
    let r3 = scan_text(r2, seq![')']);
    assert(r3 == ScanState { prev: ')', ..r2 });
    lemma_scan_concat(s5, seq!['('], join(vals, ", "@));
    lemma_scan_concat(s5, seq!['('] + join(vals, ", "@), seq![')']);
    lemma_end(r3);
    lemma_scan_concat(st0, "INSERT INTO "@, state.table);
    lemma_scan_concat(st0, t1, " ("@);
    lemma_scan_concat(st0, t2, join(state.fields, ", "@));
    lemma_scan_concat(st0, t3, ") VALUES "@);
    lemma_scan_concat(st0, t4, row);
    lemma_scan_concat(st0, t5, ";"@);
}

/// The statement storing a character scans cleanly.
pub proof fn lemma_insert_clean(c: crate::service::character::domain::CharacterView)
    ensures
        statement_clean(insert_state(c)),
{
    lemma_insert_scan(c, scan_start());
    lemma_insert_scan(c, line_start());
}

/// The script that drops and creates the `character` table.
pub open spec fn schema_text() -> Seq<char> {
    "\n    DROP TABLE IF EXISTS character"@ + ";"@ + "\n    CREATE TABLE character ("@
        + "\n        id TEXT UNIQUE,"@ + "\n        profile_id TEXT UNIQUE,"@
        + "\n        profile_name TEXT,"@ + "\n        profile_gender INTEGER,"@
        + "\n        appearance_skin INTEGER"@ + "\n    )"@ + ";"@ + "\n"@
}

proof fn lemma_lits_schema()
    ensures
        lit_effect("\n    DROP TABLE IF EXISTS character"@, 'r', 26, 0),
        lit_effect("\n    CREATE TABLE character ("@, '(', 20, 1),
        lit_effect("\n        id TEXT UNIQUE,"@, ',', 12, 0),
        lit_effect("\n        profile_id TEXT UNIQUE,"@, ',', 19, 0),
        lit_effect("\n        profile_name TEXT,"@, ',', 15, 0),
        lit_effect("\n        profile_gender INTEGER,"@, ',', 20, 0),
        lit_effect("\n        appearance_skin INTEGER"@, 'R', 21, 0),
{
    reveal_strlit("\n    DROP TABLE IF EXISTS character");
    reveal_strlit("\n    CREATE TABLE character (");
    reveal_strlit("\n        id TEXT UNIQUE,");
    reveal_strlit("\n        profile_id TEXT UNIQUE,");
    reveal_strlit("\n        profile_name TEXT,");
    reveal_strlit("\n        profile_gender INTEGER,");
    reveal_strlit("\n        appearance_skin INTEGER");
    reveal_with_fuel(scan_from, 36);
    reveal_with_fuel(no_semicolon, 36);
}

/// The schema script is lexically safe.
pub proof fn lemma_schema_safe()
    ensures
        lexically_safe(schema_text()),
{
    lemma_lits_short();
    lemma_lits_schema();
    let l1 = "\n    DROP TABLE IF EXISTS character"@;
    let l2 = "\n    CREATE TABLE character ("@;
    let l3 = "\n        id TEXT UNIQUE,"@;
    let l4 = "\n        profile_id TEXT UNIQUE,"@;
    let l5 = "\n        profile_name TEXT,"@;
    let l6 = "\n        profile_gender INTEGER,"@;
    let l7 = "\n        appearance_skin INTEGER"@;
    let l8 = "\n    )"@;
    let st = scan_start();
    lemma_piece(st, l1, 'r', 26, 0);
    let a1 = scan_text(st, l1);
    lemma_end(a1);
    lemma_piece(st, l2, '(', 20, 1);
    let a2 = scan_text(st, l2);
    lemma_piece(a2, l3, ',', 12, 0);
    let a3 = scan_text(a2, l3);
    lemma_piece(a3, l4, ',', 19, 0);
    let a4 = scan_text(a3, l4);
    lemma_piece(a4, l5, ',', 15, 0);
    let a5 = scan_text(a4, l5);
    lemma_piece(a5, l6, ',', 20, 0);
    let a6 = scan_text(a5, l6);
    lemma_piece(a6, l7, 'R', 21, 0);
    let a7 = scan_text(a6, l7);
    lemma_piece(a7, l8, ')', 0, 0);
    let a8 = scan_text(a7, l8);
    lemma_end(a8);
    reveal_strlit("\n");
    reveal_with_fuel(scan_from, 2);
    assert(scan_text(st, "\n"@).ok);
    let p1 = l1;
    let p2 = p1 + ";"@;
    let p3 = p2 + l2;
    let p4 = p3 + l3;
    let p5 = p4 + l4;
    let p6 = p5 + l5;
    let p7 = p6 + l6;
    let p8 = p7 + l7;
    let p9 = p8 + l8;
    let p10 = p9 + ";"@;
    lemma_scan_concat(st, p1, ";"@);
    lemma_scan_concat(st, p2, l2);
    lemma_scan_concat(st, p3, l3);
    lemma_scan_concat(st, p4, l4);
    lemma_scan_concat(st, p5, l5);
    lemma_scan_concat(st, p6, l6);
    lemma_scan_concat(st, p7, l7);
    lemma_scan_concat(st, p8, l8);
    lemma_scan_concat(st, p9, ";"@);
    lemma_scan_concat(st, p10, "\n"@);
}

} // verus!
