//! The trigger: resolved settings and bindings, ready to run.

use vstd::prelude::*;
use crate::config::{
    binding_extensions, binding_matches, declares_many, bindings_error, connection_matches, first_error,
    lemma_multi_channel_rejected, resolve_bindings, resolve_connection, trigger_error,
    AmqpTriggerConfig, Binding, ConfigError, ConnectionSettings, TriggerMetadata,
};
use crate::listener::{lemma_consumer_tags_distinct, started_as, Listener, ListenerAction};
use crate::supervisor::{Supervision, TestRun};

verus! {

/// The trigger with every setting resolved: the shared connection settings, one
/// binding per handler, and the extension pairs each handler declared.
pub struct AmqpTrigger {
    pub settings: ConnectionSettings,
    pub component_configs: Vec<Binding>,
    pub extensions: Vec<Vec<(String, String)>>,
}

fn copy_pairs(v: &Vec<(String, String)>) -> (r: Vec<(String, String)>)
    ensures
        r@ == v@,
{
    let mut out: Vec<(String, String)> = Vec::new();
    let mut i: usize = 0;
    while i < v.len()
        invariant
            i <= v.len(),
            out@ == v@.take(i as int),
        decreases v.len() - i,
    {
        out.push((v[i].0.clone(), v[i].1.clone()));
        assert(out@ =~= v@.take(i + 1));
        i = i + 1;
    }
    assert(v@.take(i as int) =~= v@);
    out
}

impl AmqpTrigger {
    pub open spec fn wf(&self) -> bool {
        self.extensions.len() == self.component_configs.len()
    }

    /// Resolves the trigger: the error is the first problem among the
    /// trigger-level fields, else the first among the handler entries. A handler
    /// that declares more than one channel always fails resolution, so no
    /// trigger, and no listener, comes of it.
    pub fn new(metadata: &TriggerMetadata, configs: &Vec<AmqpTriggerConfig>) -> (r: Result<AmqpTrigger, ConfigError>)
        ensures
            match r {
                Ok(t) => {
                    &&& trigger_error(*metadata) is None
                    &&& bindings_error(configs@) is None
                    &&& t.wf()
                    &&& connection_matches(t.settings, *metadata)
                    &&& t.component_configs.len() == configs.len()
                    &&& forall|i: int| 0 <= i < configs.len() ==> binding_matches(#[trigger] t.component_configs[i], configs[i])
                    &&& forall|i: int| 0 <= i < configs.len() ==> (#[trigger] t.extensions[i])@ == binding_extensions(configs[i])
                },
                Err(e) => first_error(trigger_error(*metadata), bindings_error(configs@)) == Some(e),
            },
            (exists|i: int| 0 <= i < configs.len() && declares_many(#[trigger] configs[i]))
                ==> r is Err,
    {
        proof {
            if exists|i: int| 0 <= i < configs.len() && declares_many(#[trigger] configs[i]) {
                let i = choose|i: int| 0 <= i < configs.len() && declares_many(#[trigger] configs[i]);
                lemma_multi_channel_rejected(configs@, i);
            }
        }
        let settings = resolve_connection(metadata)?;
        let component_configs = resolve_bindings(configs)?;
        let mut extensions: Vec<Vec<(String, String)>> = Vec::new();
        let mut i: usize = 0;
        while i < configs.len()
            invariant
                i <= configs.len(),
                extensions.len() == i,
                forall|j: int| 0 <= j < i ==> (#[trigger] extensions[j])@ == binding_extensions(configs[j]),
            decreases configs.len() - i,
        {
            let pairs = match &configs[i].declared {
                Some(d) => copy_pairs(&d.extensions),
                None => Vec::new(),
            };
            extensions.push(pairs);
            i = i + 1;
        }
        Ok(AmqpTrigger { settings, component_configs, extensions })
    }

    /// The test pass over every binding, in order.
    pub fn test_run(&self) -> (r: TestRun)
        ensures
            r.wf(),
            r.done == 0,
            r.failure is None,
            r.components.len() == self.component_configs.len(),
            forall|i: int| 0 <= i < r.components.len() ==> (#[trigger] r.components[i])@ == self.component_configs[i].component@,
    {
        TestRun::new(&self.component_configs)
    }

    /// One listener per binding, in order, each with its first action.
    pub fn start_listeners(&self) -> (r: Vec<(Listener, ListenerAction)>)
        requires
            self.wf(),
        ensures
            r.len() == self.component_configs.len(),
            forall|i: int| 0 <= i < r.len() ==> started_as(
                (#[trigger] r[i]).0, r[i].1, i as nat, self.settings, self.component_configs[i], self.extensions[i]@),
            forall|i: int, j: int|
                0 <= i < j < r.len() ==> (#[trigger] r[i]).0.consumer_tag@ != (#[trigger] r[j]).0.consumer_tag@,
    {
        let mut out: Vec<(Listener, ListenerAction)> = Vec::new();
        let mut i: usize = 0;
        while i < self.component_configs.len()
            invariant
                self.wf(),
                i <= self.component_configs.len(),
                out.len() == i,
                forall|j: int| 0 <= j < i ==> started_as(
                    (#[trigger] out[j]).0, out[j].1, j as nat, self.settings, self.component_configs[j], self.extensions[j]@),
            decreases self.component_configs.len() - i,
        {
            let binding = self.component_configs[i].duplicate();
            let started = Listener::start(i, &self.settings, binding, &self.extensions[i]);
            out.push(started);
            i = i + 1;
        }
        assert forall|i: int, j: int| 0 <= i < j < out.len() implies (#[trigger] out[i]).0.consumer_tag@
            != (#[trigger] out[j]).0.consumer_tag@ by {
            lemma_consumer_tags_distinct(i as nat, j as nat);
        }
        out
    }

    /// The supervision of a live run over every binding.
    pub fn supervision(&self) -> (r: Supervision)
        ensures
            r.first_exit is None,
            r.bindings@ == self.component_configs@,
    {
        let mut bindings: Vec<Binding> = Vec::new();
        let mut i: usize = 0;
        while i < self.component_configs.len()
            invariant
                i <= self.component_configs.len(),
                bindings@ == self.component_configs@.take(i as int),
            decreases self.component_configs.len() - i,
        {
            bindings.push(self.component_configs[i].duplicate());
            assert(bindings@ =~= self.component_configs@.take(i + 1));
            i = i + 1;
        }
        assert(self.component_configs@.take(i as int) =~= self.component_configs@);
        Supervision::new(bindings)
    }
}

} // verus!
