//! The world: the animals and the food, with no other owner.

use vstd::prelude::*;
use rand_chacha::ChaCha8Rng;
use crate::animal::Animal;
use crate::config::Config;
use crate::food::Food;
use crate::pos::pos_wf;

verus! {

pub struct World {
    pub animals: Vec<Animal>,
    pub food: Vec<Food>,
}

impl World {
    pub open spec fn wf(&self, config: Config) -> bool {
        &&& self.animals@.len() == config.count_animal
        &&& self.food@.len() == config.count_food
        &&& forall|i: int| 0 <= i < self.animals@.len() ==> (#[trigger] self.animals@[i]).wf(config)
        &&& forall|i: int| 0 <= i < self.food@.len() ==> pos_wf((#[trigger] self.food@[i]).pos)
    }

    pub fn random(rng: &mut ChaCha8Rng, config: &Config) -> (r: World)
        requires
            config.wf(),
        ensures
            r.wf(*config),
            forall|i: int|
                0 <= i < r.animals@.len() ==> (#[trigger] r.animals@[i]).collisions == 0,
    {
        let mut animals: Vec<Animal> = Vec::new();
        let mut i: usize = 0;
        while i < config.count_animal
            invariant
                i <= config.count_animal,
                config.wf(),
                animals@.len() == i,
                forall|j: int| 0 <= j < i ==> (#[trigger] animals@[j]).wf(*config),
                forall|j: int| 0 <= j < i ==> (#[trigger] animals@[j]).collisions == 0,
            decreases config.count_animal - i,
        {
            animals.push(Animal::random(rng, config));
            i = i + 1;
        }
        let mut food: Vec<Food> = Vec::new();
        let mut k: usize = 0;
        while k < config.count_food
            invariant
                k <= config.count_food,
                food@.len() == k,
                forall|j: int| 0 <= j < k ==> pos_wf((#[trigger] food@[j]).pos),
            decreases config.count_food - k,
        {
            food.push(Food::random(rng));
            k = k + 1;
        }
        World { animals, food }
    }

    pub fn animals(&self) -> (r: &Vec<Animal>)
        ensures
            r == &self.animals,
    {
        &self.animals
    }

    pub fn food(&self) -> (r: &Vec<Food>)
        ensures
            r == &self.food,
    {
        &self.food
    }
}

} // verus!
