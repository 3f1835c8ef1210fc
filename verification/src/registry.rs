use vstd::prelude::*;

use crate::schema::EndpointSchema;

verus! {

/// A registered endpoint: its schema and the handler that serves it. Created
/// once at registration time and immutable thereafter.
pub struct Endpoint<H> {
    pub schema: EndpointSchema,
    pub handler: H,
}

/// Why a registration was refused: the offending code and name of the schema
/// that collided with an entry already present.
#[derive(Debug)]
pub struct DuplicateEndpoint {
    pub code: u32,
    pub name: String,
}

/// Some registered endpoint carries `code`.
pub open spec fn has_code<H>(s: Seq<Endpoint<H>>, code: u32) -> bool {
    exists|i: int| 0 <= i < s.len() && s[i].schema.code == code
}

/// Some registered endpoint carries `name`.
pub open spec fn has_name<H>(s: Seq<Endpoint<H>>, name: Seq<char>) -> bool {
    exists|i: int| 0 <= i < s.len() && s[i].schema.name@ == name
}

/// The first registered endpoint carrying `code`; in a well-formed registry,
/// the only one.
pub open spec fn coded_endpoint<H>(s: Seq<Endpoint<H>>, code: u32) -> Option<Endpoint<H>>
    decreases s.len(),
{
    if s.len() == 0 {
        None
    } else if s[0].schema.code == code {
        Some(s[0])
    } else {
        coded_endpoint(s.skip(1), code)
    }
}

/// The first registered endpoint carrying `name`; in a well-formed registry,
/// the only one.
pub open spec fn named_endpoint<H>(s: Seq<Endpoint<H>>, name: Seq<char>) -> Option<Endpoint<H>>
    decreases s.len(),
{
    if s.len() == 0 {
        None
    } else if s[0].schema.name@ == name {
        Some(s[0])
    } else {
        named_endpoint(s.skip(1), name)
    }
}

/// The registry of endpoints, populated once at startup and frozen when the
/// listen loop begins. Its invariant: no two entries share a numeric code,
/// and no two entries share a name.
pub struct EndpointRegistry<H> {
    endpoints: Vec<Endpoint<H>>,
}

impl<H> EndpointRegistry<H> {
    /// The registered endpoints, in registration order.
    pub closed spec fn eps(&self) -> Seq<Endpoint<H>> {
        self.endpoints@
    }

    /// No two registered endpoints share a code or a name.
    pub closed spec fn wf(&self) -> bool {
        forall|i: int, j: int|
            #![trigger self.eps()[i], self.eps()[j]]
            0 <= i < j < self.eps().len() ==> {
                &&& self.eps()[i].schema.code != self.eps()[j].schema.code
                &&& self.eps()[i].schema.name@ != self.eps()[j].schema.name@
            }
    }

    pub fn new() -> (r: Self)
        ensures
            r.wf(),
            r.eps().len() == 0,
    {
        EndpointRegistry { endpoints: Vec::new() }
    }

    /// Registers an endpoint. A schema whose code or name duplicates an
    /// entry already present is refused, and the registry is left unchanged:
    /// duplicates fail at registration time, never at request time.
    pub fn register(&mut self, schema: EndpointSchema, handler: H) -> (r: Result<
        (),
        DuplicateEndpoint,
    >)
        requires
            old(self).wf(),
        ensures
            final(self).wf(),
            match r {
                Ok(()) => {
                    &&& !has_code(old(self).eps(), schema.code)
                    &&& !has_name(old(self).eps(), schema.name@)
                    &&& final(self).eps() == old(self).eps().push(
                        Endpoint { schema, handler },
                    )
                },
                Err(dup) => {
                    &&& has_code(old(self).eps(), schema.code) || has_name(
                        old(self).eps(),
                        schema.name@,
                    )
                    &&& *final(self) == *old(self)
                    &&& dup.code == schema.code
                    &&& dup.name@ == schema.name@
                },
            },
    {
        let mut i: usize = 0;
        while i < self.endpoints.len()
            invariant
                i <= self.endpoints.len(),
                forall|j: int|
                    0 <= j < i ==> (#[trigger] self.eps()[j]).schema.code != schema.code
                        && self.eps()[j].schema.name@ != schema.name@,
                *self == *old(self),
                old(self).wf(),
            decreases self.endpoints.len() - i,
        {
            if self.endpoints[i].schema.code == schema.code || self.endpoints[i].schema.name.eq(
                &schema.name,
            ) {
                let dup = DuplicateEndpoint { code: schema.code, name: schema.name };
                return Err(dup);
            }
            proof {
                assert(self.eps()[i as int].schema.code != schema.code);
                assert(self.eps()[i as int].schema.name@ != schema.name@);
            }
            i += 1;
        }
        let ghost before = self.eps();
        self.endpoints.push(Endpoint { schema, handler });
        proof {
            let after = self.eps();
            assert forall|a: int, b: int|
                0 <= a < b < after.len() implies after[a].schema.code != after[b].schema.code
                && after[a].schema.name@ != after[b].schema.name@ by {
                if b < before.len() as int {
                    assert(before[a] == after[a] && before[b] == after[b]);
                } else {
                    assert(after[b] == Endpoint { schema, handler });
                    assert(before[a] == after[a]);
                }
            }
        }
        Ok(())
    }

    /// The endpoint registered under a numeric code, exactly when one is.
    pub fn lookup_code(&self, code: u32) -> (r: Option<&Endpoint<H>>)
        ensures
            match r {
                Some(e) => {
                    &&& e.schema.code == code
                    &&& has_code(self.eps(), code)
                    &&& coded_endpoint(self.eps(), code) == Some(*e)
                },
                None => !has_code(self.eps(), code) && coded_endpoint(self.eps(), code) is None,
            },
    {
        let mut i: usize = 0;
        proof {
            assert(self.eps().skip(0) =~= self.eps());
        }
        while i < self.endpoints.len()
            invariant
                i <= self.endpoints.len(),
                forall|j: int| 0 <= j < i ==> #[trigger] self.eps()[j].schema.code != code,
                coded_endpoint(self.eps(), code) == coded_endpoint(
                    self.eps().skip(i as int),
                    code,
                ),
            decreases self.endpoints.len() - i,
        {
            proof {
                assert(self.eps().skip(i as int)[0] == self.eps()[i as int]);
                assert(self.eps().skip(i as int).skip(1) =~= self.eps().skip(i + 1));
            }
            if self.endpoints[i].schema.code == code {
                proof {
                    assert(has_code(self.eps(), code)) by {
                        assert(self.eps()[i as int].schema.code == code);
                    }
                }
                return Some(&self.endpoints[i]);
            }
            i += 1;
        }
        proof {
            assert(self.eps().skip(i as int) =~= Seq::<Endpoint<H>>::empty());
        }
        None
    }

    /// The endpoint registered under a name, exactly when one is.
    pub fn lookup_name(&self, name: &str) -> (r: Option<&Endpoint<H>>)
        ensures
            match r {
                Some(e) => {
                    &&& e.schema.name@ == name@
                    &&& has_name(self.eps(), name@)
                    &&& named_endpoint(self.eps(), name@) == Some(*e)
                },
                None => !has_name(self.eps(), name@) && named_endpoint(self.eps(), name@) is None,
            },
    {
        let n = String::from_str(name);
        let mut i: usize = 0;
        proof {
            assert(self.eps().skip(0) =~= self.eps());
        }
        while i < self.endpoints.len()
            invariant
                n@ == name@,
                i <= self.endpoints.len(),
                forall|j: int| 0 <= j < i ==> #[trigger] self.eps()[j].schema.name@ != name@,
                named_endpoint(self.eps(), name@) == named_endpoint(
                    self.eps().skip(i as int),
                    name@,
                ),
            decreases self.endpoints.len() - i,
        {
            proof {
                assert(self.eps().skip(i as int)[0] == self.eps()[i as int]);
                assert(self.eps().skip(i as int).skip(1) =~= self.eps().skip(i + 1));
            }
            if self.endpoints[i].schema.name.eq(&n) {
                proof {
                    assert(has_name(self.eps(), name@)) by {
                        assert(self.eps()[i as int].schema.name@ == name@);
                    }
                }
                return Some(&self.endpoints[i]);
            }
            i += 1;
        }
        proof {
            assert(self.eps().skip(i as int) =~= Seq::<Endpoint<H>>::empty());
        }
        None
    }

    /// How many endpoints are registered.
    pub fn len(&self) -> (r: usize)
        ensures
            r == self.eps().len(),
    {
        self.endpoints.len()
    }

    /// The endpoint at one registration position.
    pub fn endpoint_at(&self, i: usize) -> (r: &Endpoint<H>)
        requires
            i < self.eps().len(),
        ensures
            *r == self.eps()[i as int],
    {
        &self.endpoints[i]
    }
}

/// Registration keeps codes and names unique: in any well-formed registry no
/// two distinct endpoints answer to the same numeric code or to the same
/// name, so a request identifier resolves to at most one handler.
pub proof fn lemma_registered_identifiers_unique<H>(r: EndpointRegistry<H>, i: int, j: int)
    requires
        r.wf(),
        0 <= i < r.eps().len(),
        0 <= j < r.eps().len(),
        i != j,
    ensures
        r.eps()[i].schema.code != r.eps()[j].schema.code,
        r.eps()[i].schema.name@ != r.eps()[j].schema.name@,
{
    if i < j {
        assert(r.eps()[i].schema.code != r.eps()[j].schema.code);
    } else {
        assert(r.eps()[j].schema.code != r.eps()[i].schema.code);
    }
}

} // verus!
