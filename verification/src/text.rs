use vstd::prelude::*;
use crate::types::DatabaseType;

verus! {

/// Character-wise equality of two string slices.
pub fn str_eq(a: &str, b: &str) -> (r: bool)
    ensures
        r == (a@ == b@),
{
    let n = a.unicode_len();
    if n != b.unicode_len() {
        assert(a@.len() != b@.len());
        return false;
    }
    let mut i: usize = 0;
    while i < n
        invariant
            n == a@.len(),
            n == b@.len(),
            i <= n,
            forall|j: int| 0 <= j < i ==> a@[j] == b@[j],
        decreases n - i,
    {
        if a.get_char(i) != b.get_char(i) {
            return false;
        }
        i = i + 1;
    }
    assert(a@ =~= b@);
    true
}

/// The character for one decimal digit.
pub open spec fn spec_digit_char(d: int) -> char {
    if d == 0 {
        '0'
    } else if d == 1 {
        '1'
    } else if d == 2 {
        '2'
    } else if d == 3 {
        '3'
    } else if d == 4 {
        '4'
    } else if d == 5 {
        '5'
    } else if d == 6 {
        '6'
    } else if d == 7 {
        '7'
    } else if d == 8 {
        '8'
    } else {
        '9'
    }
}

/// Decimal rendering of a non-negative integer, most significant digit first.
pub open spec fn spec_decimal(n: int) -> Seq<char>
    decreases n,
{
    if n < 10 {
        seq![spec_digit_char(n)]
    } else {
        spec_decimal(n / 10).push(spec_digit_char(n % 10))
    }
}

fn digit_str(d: u16) -> (s: &'static str)
    requires
        d < 10,
    ensures
        s@ =~= seq![spec_digit_char(d as int)],
{
    if d == 0 {
        let s = "0";
        proof { reveal_strlit("0"); }
        s
    } else if d == 1 {
        let s = "1";
        proof { reveal_strlit("1"); }
        s
    } else if d == 2 {
        let s = "2";
        proof { reveal_strlit("2"); }
        s
    } else if d == 3 {
        let s = "3";
        proof { reveal_strlit("3"); }
        s
    } else if d == 4 {
        let s = "4";
        proof { reveal_strlit("4"); }
        s
    } else if d == 5 {
        let s = "5";
        proof { reveal_strlit("5"); }
        s
    } else if d == 6 {
        let s = "6";
        proof { reveal_strlit("6"); }
        s
    } else if d == 7 {
        let s = "7";
        proof { reveal_strlit("7"); }
        s
    } else if d == 8 {
        let s = "8";
        proof { reveal_strlit("8"); }
        s
    } else {
        let s = "9";
        proof { reveal_strlit("9"); }
        s
    }
}

/// Decimal rendering of a port number.
pub fn u16_to_decimal(n: u16) -> (s: String)
    ensures
        s@ == spec_decimal(n as int),
    decreases n,
{
    if n < 10 {
        String::from_str(digit_str(n))
    } else {
        let high = u16_to_decimal(n / 10);
        let r = high.concat(digit_str(n % 10));
        assert(r@ =~= spec_decimal(n as int));
        r
    }
}

/// The URL scheme of one engine family.
pub open spec fn spec_scheme(db_type: DatabaseType) -> Seq<char> {
    match db_type {
        DatabaseType::Postgres => "postgres://"@,
        DatabaseType::Mysql => "mysql://"@,
    }
}

/// The driver connection string for the given parameters:
/// `scheme user ":" password "@" host ":" port "/" database`.
pub open spec fn spec_connection_string(
    db_type: DatabaseType,
    host: Seq<char>,
    port: u16,
    database: Seq<char>,
    username: Seq<char>,
    password: Seq<char>,
) -> Seq<char> {
    spec_scheme(db_type) + username + ":"@ + password + "@"@ + host + ":"@ + spec_decimal(
        port as int,
    ) + "/"@ + database
}

/// Builds the driver connection string for one engine family.
pub fn build_connection_string(
    db_type: DatabaseType,
    host: &str,
    port: u16,
    database: &str,
    username: &str,
    password: &str,
) -> (s: String)
    ensures
        s@ == spec_connection_string(db_type, host@, port, database@, username@, password@),
{
    let mut s = match db_type {
        DatabaseType::Postgres => String::from_str("postgres://"),
        DatabaseType::Mysql => String::from_str("mysql://"),
    };
    s.append(username);
    s.append(":");
    s.append(password);
    s.append("@");
    s.append(host);
    s.append(":");
    let port_digits = u16_to_decimal(port);
    s.append(port_digits.as_str());
    s.append("/");
    s.append(database);
    assert(s@ =~= spec_connection_string(db_type, host@, port, database@, username@, password@));
    s
}

} // verus!
