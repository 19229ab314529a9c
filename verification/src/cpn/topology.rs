//! Instances of components and the connections between their ports.
use vstd::prelude::*;
use vstd::string::StringExecFns;

verus! {

/// Component of a model.
#[derive(Clone, Copy, Debug, PartialEq, Eq, Structural)]
pub enum Component {
    /// Memory of the DDR.
    Ddr,
    /// Memory of the HBM.
    Hbm,
    Regmap,
    XBar,
    UCore,
    HpuCore,
    /// Transfers between nodes.
    NDma,
    /// Access of the host to a node.
    H2sBridge,
    HpuNode,
    /// Network that carries the transfers between nodes.
    Switch,
    /// Network that carries the messages between nodes.
    SplitSwitch,
}

/// Port of a component.
#[derive(Debug)]
pub struct Endpoint {
    pub module: String,
    pub port: String,
}

/// Abstract value of an `Endpoint`.
#[verifier::ext_equal]
pub struct EndpointView {
    pub module: Seq<char>,
    pub port: Seq<char>,
}

impl View for Endpoint {
    type V = EndpointView;

    open spec fn view(&self) -> EndpointView {
        EndpointView { module: self.module@, port: self.port@ }
    }
}

impl EndpointView {
    /// Path of a port.
    pub open spec fn path(self) -> Seq<char> {
        self.module + "::"@ + self.port
    }
}

/// Endpoint named by two texts.
pub open spec fn at(module: &str, port: &str) -> EndpointView {
    EndpointView { module: module@, port: port@ }
}

/// Port of an inner component that is visible from the outside.
#[derive(Debug)]
pub struct Exposed {
    pub name: String,
    pub inner: Endpoint,
}

/// Components of a model, with their connections.
#[derive(Debug)]
pub struct Netlist {
    pub instances: Vec<(String, Component)>,
    pub binds: Vec<(Endpoint, Endpoint)>,
    pub exposed: Vec<Exposed>,
}

/// Abstract value of a `Netlist`.
#[verifier::ext_equal]
pub struct NetlistView {
    pub instances: Seq<(Seq<char>, Component)>,
    pub binds: Seq<(EndpointView, EndpointView)>,
    pub exposed: Seq<(Seq<char>, EndpointView)>,
}

impl View for Netlist {
    type V = NetlistView;

    open spec fn view(&self) -> NetlistView {
        NetlistView {
            instances: Seq::new(
                self.instances@.len(),
                |i: int| (self.instances@[i].0@, self.instances@[i].1),
            ),
            binds: Seq::new(
                self.binds@.len(),
                |i: int| (self.binds@[i].0@, self.binds@[i].1@),
            ),
            exposed: Seq::new(
                self.exposed@.len(),
                |i: int| (self.exposed@[i].name@, self.exposed@[i].inner@),
            ),
        }
    }
}

impl NetlistView {
    /// A component has a name.
    pub open spec fn has(self, module: Seq<char>) -> bool {
        exists|i: int| 0 <= i < self.instances.len() && (#[trigger] self.instances[i]).0 == module
    }

    /// Each connection and each visible port is that of a component of the netlist.
    pub open spec fn closed(self) -> bool {
        &&& forall|i: int|
            0 <= i < self.binds.len() ==> self.has((#[trigger] self.binds[i]).0.module) && self.has(
                self.binds[i].1.module,
            )
        &&& forall|i: int|
            0 <= i < self.exposed.len() ==> self.has((#[trigger] self.exposed[i]).1.module)
    }
}

impl Endpoint {
    /// Endpoint named by two texts.
    pub fn new(module: &str, port: &str) -> (r: Endpoint)
        ensures
            r@ == at(module, port),
    {
        Endpoint { module: module.to_owned(), port: port.to_owned() }
    }

    /// Path of a port.
    pub fn path(&self) -> (r: String)
        ensures
            r@ == self@.path(),
    {
        let mut r = self.module.clone();
        r.append("::");
        r.append(self.port.as_str());
        r
    }
}

impl Netlist {
    /// A netlist without any component.
    pub fn new() -> (r: Netlist)
        ensures
            r@ == (NetlistView {
                instances: Seq::empty(),
                binds: Seq::empty(),
                exposed: Seq::empty(),
            }),
    {
        let r = Netlist { instances: Vec::new(), binds: Vec::new(), exposed: Vec::new() };
        assert(r@ =~= (NetlistView {
            instances: Seq::empty(),
            binds: Seq::empty(),
            exposed: Seq::empty(),
        }));
        r
    }

    /// Adds a component.
    pub fn insert_module(&mut self, name: &str, component: Component)
        ensures
            final(self)@ == (NetlistView {
                instances: old(self)@.instances.push((name@, component)),
                ..old(self)@
            }),
    {
        self.instances.push((name.to_owned(), component));
        assert(self@ =~= (NetlistView {
            instances: old(self)@.instances.push((name@, component)),
            ..old(self)@
        }));
    }

    /// Connects two ports.
    pub fn inner_bind(&mut self, from: Endpoint, to: Endpoint)
        ensures
            final(self)@ == (NetlistView {
                binds: old(self)@.binds.push((from@, to@)),
                ..old(self)@
            }),
    {
        self.binds.push((from, to));
        assert(self@ =~= (NetlistView {
            binds: old(self)@.binds.push((from@, to@)),
            ..old(self)@
        }));
    }

    /// Makes a port visible.
    pub fn expose_port(&mut self, name: &str, inner: Endpoint)
        ensures
            final(self)@ == (NetlistView {
                exposed: old(self)@.exposed.push((name@, inner@)),
                ..old(self)@
            }),
    {
        self.exposed.push(Exposed { name: name.to_owned(), inner });
        assert(self@ =~= (NetlistView {
            exposed: old(self)@.exposed.push((name@, inner@)),
            ..old(self)@
        }));
    }
}

/// Character of a digit.
pub open spec fn digit(n: int) -> char {
    (48 + n) as char
}

/// Decimal writing of a number.
pub open spec fn decimal(n: int) -> Seq<char>
    decreases n,
{
    if n < 10 {
        seq![digit(n)]
    } else {
        decimal(n / 10).push(digit(n % 10))
    }
}

/// A text followed by a number.
pub open spec fn numbered(prefix: Seq<char>, n: int) -> Seq<char> {
    prefix + decimal(n)
}

fn digit_text(n: usize) -> (r: &'static str)
    requires
        n < 10,
    ensures
        r@ == seq![digit(n as int)],
{
    proof {
        reveal_strlit("0");
        reveal_strlit("1");
        reveal_strlit("2");
        reveal_strlit("3");
        reveal_strlit("4");
        reveal_strlit("5");
        reveal_strlit("6");
        reveal_strlit("7");
        reveal_strlit("8");
        reveal_strlit("9");
    }
    let r = match n {
        0 => "0",
        1 => "1",
        2 => "2",
        3 => "3",
        4 => "4",
        5 => "5",
        6 => "6",
        7 => "7",
        8 => "8",
        _ => "9",
    };
    assert(r@ =~= seq![digit(n as int)]);
    r
}

/// Appends the decimal writing of a number to a text.
pub fn push_decimal(text: &mut String, n: usize)
    ensures
        final(text)@ == old(text)@ + decimal(n as int),
    decreases n,
{
    if n < 10 {
        text.append(digit_text(n));
    } else {
        push_decimal(text, n / 10);
        text.append(digit_text(n % 10));
        assert(text@ =~= old(text)@ + decimal(n as int));
    }
}

/// A text followed by a number.
pub fn with_number(prefix: &str, n: usize) -> (r: String)
    ensures
        r@ == numbered(prefix@, n as int),
{
    let mut r = prefix.to_owned();
    push_decimal(&mut r, n);
    r
}

/// Two numbers have two decimal writings.
pub proof fn decimal_is_unique(a: int, b: int)
    requires
        0 <= a,
        0 <= b,
        decimal(a) == decimal(b),
    ensures
        a == b,
    decreases a,
{
    lemma_decimal(a);
    lemma_decimal(b);
    assert(decimal(a).last() == decimal(b).last());
    assert(a % 10 == b % 10) by {
        assert(digit(a % 10) == digit(b % 10));
        assert(digit(a % 10) as int == 48 + a % 10);
        assert(digit(b % 10) as int == 48 + b % 10);
    }
    if a >= 10 || b >= 10 {
        assert(a >= 10 && b >= 10);
        assert(decimal(a).drop_last() =~= decimal(a / 10));
        assert(decimal(b).drop_last() =~= decimal(b / 10));
        decimal_is_unique(a / 10, b / 10);
    }
}

proof fn lemma_decimal(n: int)
    requires
        0 <= n,
    ensures
        decimal(n).len() >= 1,
        decimal(n).len() == 1 <==> n < 10,
        decimal(n).last() == digit(n % 10),
    decreases n,
{
    if n >= 10 {
        lemma_decimal(n / 10);
    }
}

/// Two numbers after the same text make two texts.
pub proof fn numbered_is_unique(prefix: Seq<char>, a: int, b: int)
    requires
        0 <= a,
        0 <= b,
        numbered(prefix, a) == numbered(prefix, b),
    ensures
        a == b,
{
    let n = prefix.len() as int;
    assert(numbered(prefix, a).skip(n) =~= decimal(a));
    assert(numbered(prefix, b).skip(n) =~= decimal(b));
    decimal_is_unique(a, b);
}

/// Number that a text of digits stands for.
pub open spec fn value_of(text: Seq<char>) -> int
    decreases text.len(),
{
    if text.len() == 0 {
        0
    } else {
        10 * value_of(text.drop_last()) + (text.last() as int - '0' as int)
    }
}

/// The decimal writing of a number stands for this number, without useless zeros.
pub proof fn decimal_reads_back(n: int)
    requires
        0 <= n,
    ensures
        value_of(decimal(n)) == n,
        decimal(n).len() > 1 ==> decimal(n)[0] != '0',
    decreases n,
{
    reveal_with_fuel(value_of, 2);
    lemma_decimal(n);
    if n < 10 {
        assert(decimal(n).drop_last() =~= Seq::<char>::empty());
    } else {
        decimal_reads_back(n / 10);
        lemma_decimal(n / 10);
        assert(decimal(n).drop_last() =~= decimal(n / 10));
        assert(decimal(n)[0] == decimal(n / 10)[0]);
        if n / 10 < 10 {
            assert(decimal(n / 10)[0] == digit(n / 10));
            assert(digit(n / 10) as int == 48 + n / 10);
        }
    }
}

} // verus!
