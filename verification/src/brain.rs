//! The agent's brain: a network shaped `eye cells -> hidden -> 2`, whose
//! two outputs drive speed and turning.

use vstd::prelude::*;
use rand_chacha::ChaCha8Rng;
use crate::chromosome::Chromosome;
use crate::config::Config;
use crate::network::LayerTopology;
use crate::network::Network;
use crate::network::lemma_net_flat_bounded;
use crate::network::matches_topology;
use crate::network::needed_len;
use crate::network::net_flat;
use crate::network::net_wf;
use crate::network::topo_view;
use crate::network::valid_topology;

verus! {

pub struct Brain {
    pub nn: Network,
}

/// The topology a configuration prescribes: one input per eye cell, one
/// hidden layer, two outputs.
pub open spec fn brain_topo(config: Config) -> Seq<usize> {
    seq![config.eye_cells, config.brain_neurons, 2]
}

impl Brain {
    pub open spec fn wf(&self, config: Config) -> bool {
        net_wf(self.nn) && matches_topology(self.nn, brain_topo(config))
    }

    /// The topology as a value `Network` functions accept.
    pub fn topology(config: &Config) -> (r: Vec<LayerTopology>)
        requires
            config.wf(),
        ensures
            topo_view(r@) == brain_topo(*config),
            valid_topology(topo_view(r@)),
    {
        let mut t: Vec<LayerTopology> = Vec::new();
        t.push(LayerTopology { neurons: config.eye_cells });
        t.push(LayerTopology { neurons: config.brain_neurons });
        t.push(LayerTopology { neurons: 2 });
        proof {
            assert(topo_view(t@) =~= brain_topo(*config));
        }
        t
    }

    pub fn random(config: &Config, rng: &mut ChaCha8Rng) -> (r: Brain)
        requires
            config.wf(),
        ensures
            r.wf(*config),
    {
        let topology = Self::topology(config);
        Brain { nn: Network::random(&topology, rng) }
    }

    /// The brain's parameters as a chromosome.
    pub fn as_chromosome(&self) -> (r: Chromosome)
        requires
            net_wf(self.nn),
        ensures
            r@ == net_flat(self.nn),
            r.wf(),
    {
        proof {
            lemma_net_flat_bounded(self.nn);
        }
        Chromosome::from_genes(self.nn.weights())
    }

    /// Rebuild a brain from a chromosome of exactly the prescribed length.
    pub fn from_chromosome(chromosome: &Chromosome, config: &Config) -> (r: Brain)
        requires
            config.wf(),
            chromosome.wf(),
            chromosome@.len() == needed_len(brain_topo(*config)),
        ensures
            r.wf(*config),
            net_flat(r.nn) == chromosome@,
    {
        let topology = Self::topology(config);
        Brain { nn: Network::from_weights(&topology, chromosome) }
    }
}

} // verus!
