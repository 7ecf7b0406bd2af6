use pkgcraft::atom_parse::parse_atom;
use pkgcraft::grammar::GrammarRevision;
use pkgcraft::order::Order;
use pkgcraft::version::parse_version;

/// A small generator of numbers, the same on every run.
struct Source(u64);

impl Source {
    fn next(&mut self, below: u64) -> u64 {
        self.0 = self.0.wrapping_mul(6364136223846793005).wrapping_add(1442695040888963407);
        (self.0 >> 33) % below
    }

    fn pick<'a>(&mut self, from: &[&'a str]) -> &'a str {
        from[self.next(from.len() as u64) as usize]
    }

    fn number(&mut self) -> String {
        self.pick(&["0", "1", "2", "9", "10", "01", "007", "123", "99999999999999999999"]).to_string()
    }

    fn version(&mut self) -> String {
        let mut text = self.number();
        for _ in 0..self.next(3) {
            text.push('.');
            text.push_str(&self.number());
        }
        if self.next(3) == 0 {
            text.push_str(self.pick(&["a", "b", "z"]));
        }
        for _ in 0..self.next(3) {
            text.push('_');
            text.push_str(self.pick(&["alpha", "beta", "pre", "rc", "p"]));
            if self.next(2) == 0 {
                text.push_str(&self.number());
            }
        }
        if self.next(2) == 0 {
            text.push_str("-r");
            text.push_str(&self.number());
        }
        text
    }

    fn atom(&mut self) -> String {
        let mut text = String::new();
        let operator = self.pick(&["", "", "<", "<=", "=", "=*", "~", ">=", ">"]);
        let wildcard = operator == "=*";
        text.push_str(if wildcard { "=" } else { operator });
        text.push_str(self.pick(&["cat", "app-misc", "x11.libs", "_c+"]));
        text.push('/');
        text.push_str(self.pick(&["pkg", "gtk+", "pkg-1", "foo-bar", "a.b_c-r1"]));
        if !operator.is_empty() {
            text.push('-');
            let mut version = self.version();
            if wildcard {
                if let Some(at) = version.find("-r") {
                    version.truncate(at);
                }
            }
            text.push_str(&version);
            if wildcard {
                text.push('*');
            }
        }
        if self.next(2) == 0 {
            text.push(':');
            text.push_str(self.pick(&["0", "1.2", "stable", "_x"]));
            if self.next(2) == 0 {
                text.push('/');
                text.push_str(self.pick(&["0", "3", "sub-slot"]));
            }
            text.push_str(self.pick(&["", "=", "*"]));
        }
        if self.next(2) == 0 {
            text.push('[');
            let count = 1 + self.next(3);
            for i in 0..count {
                if i > 0 {
                    text.push(',');
                }
                let flag = self.pick(&["a", "ssl", "x86-64", "abi_x86_32", "qt5+", "python@3"]);
                let default = self.pick(&["", "(+)", "(-)"]);
                let form = self.next(6);
                let (before, after) = match form {
                    0 => ("", ""),
                    1 => ("-", ""),
                    2 => ("", "?"),
                    3 => ("!", "?"),
                    4 => ("", "="),
                    _ => ("!", "="),
                };
                text.push_str(before);
                text.push_str(flag);
                text.push_str(default);
                text.push_str(after);
            }
            text.push(']');
        }
        if self.next(2) == 0 {
            text.push_str("::");
            text.push_str(self.pick(&["gentoo", "my_repo", "r-2"]));
        }
        text
    }
}

#[test]
fn generated_versions_round_trip_and_order() {
    let mut source = Source(1);
    let texts: Vec<String> = (0..60).map(|_| source.version()).collect();
    let versions: Vec<_> = texts.iter().map(|t| parse_version(t).unwrap()).collect();
    for (text, version) in texts.iter().zip(&versions) {
        assert_eq!(&version.to_string(), text);
        assert_eq!(version.compare(&version.clone()), Order::Equal);
    }
    for a in &versions {
        for b in &versions {
            let ab = a.compare(b);
            let ba = b.compare(a);
            assert_eq!(ab == Order::Less, ba == Order::Greater);
            assert_eq!(ab == Order::Equal, ba == Order::Equal);
            assert_eq!(ab == Order::Equal, a == b);
            assert_eq!(ab == Order::Less, a < b);
            if ab == Order::Equal {
                assert_eq!(a.hash(), b.hash());
            }
        }
    }
    for a in &versions {
        for b in &versions {
            if a.compare(b) != Order::Less {
                continue;
            }
            for c in &versions {
                if b.compare(c) == Order::Less {
                    assert_eq!(a.compare(c), Order::Less);
                }
            }
        }
    }
}

#[test]
fn generated_atoms_round_trip_and_order() {
    let mut source = Source(2);
    let latest = GrammarRevision::latest();
    let texts: Vec<String> = (0..80).map(|_| source.atom()).collect();
    let atoms: Vec<_> = texts
        .iter()
        .map(|t| parse_atom(t, latest).unwrap_or_else(|e| panic!("{}: {}", t, e.message())))
        .collect();
    for (text, atom) in texts.iter().zip(&atoms) {
        assert_eq!(&atom.to_string(), text);
        let again = parse_atom(&atom.to_string(), latest).unwrap();
        assert!(&again == atom);
        assert_eq!(again.hash(), atom.hash());
    }
    for a in &atoms {
        for b in &atoms {
            let ab = a.compare(b);
            let ba = b.compare(a);
            assert_eq!(ab == Order::Less, ba == Order::Greater);
            assert_eq!(ab == Order::Equal, ba == Order::Equal);
            assert_eq!(ab == Order::Equal, a == b);
            if ab == Order::Equal {
                assert_eq!(a.hash(), b.hash());
            }
        }
    }
}
